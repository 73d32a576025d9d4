# financial_signal

A verified library for the decision logic of a financial structural-signal
service: instrument resolution, the daily OHLCV CSV format, pinned corpus
custody and sealed audits, cadence checks,
request validation, readiness, calibration-profile validation, cross-scale
agreement, first-passage labels and the integer statistics and gates of
held-out calibration.

- `src/` is the library. Every function carries a Verus contract, and the
  properties that relate functions stand as proof functions (`lemma_*`).
- `tests/` runs the library on concrete values.
- `app/` is the command-line front end: it reads CSV and profile files,
  writes JSON, and parses the floating-point prices and profile fields that
  the library receives as checked outcomes.

The signal response's decided part (status, as-of instant, direction,
label, cross-scale composition, sample support) is `signal_response_header`.
The response's digest is `sha256_text` of its serialized form with the
digest unset; the structural and technical readings the response carries
come from an engine that this crate does not include.

Calls into `sha2`, `csv` and `chrono` go through small trusted functions whose
contracts name what the call returns.
