//! Corpus custody: the pinned table of corpus files, and the acceptance of a
//! file by its row count, date span and raw SHA-256 digest.

use vstd::prelude::*;
use crate::contracts::{Instrument, SessionCalendar};
use crate::digest::{digest_text, sha256_text};
use crate::daily_csv::{
    csv_text_of, daily_rows_of, daily_table_is, fault_of, opt_text, plan_daily_rows, read_csv, record_count,
    read_daily_table, DailyFault, DailyRowPlan, DailyTable, PriceCheck,
};
use crate::historical::{
    anomalies_of, cadence_anomalies, civil_from_days, daily_cadence, day_of_instant, gaps_fit,
    historical_error_text, CadencePolicy,
    HistoricalError, HistoricalLoadPolicy,
};
use crate::resolver::{
    is_default_catalog, lemma_found_is_exclusive, resolution_ok, resolves_to_one, AssetResolver,
    CatalogEntry, Resolution,
};
use crate::readiness::digit_char;
use crate::text::{concat, push_text, text_eq};

verus! {

#[derive(Debug, Clone, Copy, PartialEq, Eq, Structural)]
pub enum CorpusRole {
    Calibration,
    Historical,
}

#[derive(Debug, Clone, Copy, PartialEq, Eq, Structural)]
pub enum CorpusFileStatus {
    Accepted,
    AcceptedWithExclusions,
    Rejected,
}

#[derive(Debug, Clone, PartialEq, Eq)]
pub struct CorpusFileReport {
    pub file: String,
    pub role: CorpusRole,
    pub instrument_id: String,
    pub expected_rows: usize,
    pub actual_rows: usize,
    pub valid_rows: usize,
    pub malformed_rows_excluded: usize,
    pub expected_start: String,
    pub actual_start: String,
    pub expected_end: String,
    pub actual_end: String,
    pub cadence_anomalies: usize,
    pub volume_available_rows: usize,
    pub volume_unavailable_rows: usize,
    pub input_sha256: String,
    pub status: CorpusFileStatus,
    pub accepted: bool,
}

/// The schema of a corpus audit report.
pub const CORPUS_AUDIT_SCHEMA: &'static str = "pramagraph.financial_corpus_audit.v1";

#[derive(Debug, Clone, PartialEq, Eq)]
pub struct CorpusAuditReport {
    pub schema: String,
    pub files: Vec<CorpusFileReport>,
    pub all_files_accepted: bool,
    pub report_sha256: Option<String>,
}

/// A pinned corpus file: what it serves and what it must contain.
#[derive(Debug, Clone, Copy, PartialEq, Eq)]
pub struct CorpusDefinition {
    pub file: &'static str,
    pub query: &'static str,
    pub role: CorpusRole,
    pub rows: usize,
    pub start: &'static str,
    pub end: &'static str,
    pub expected_sha256: &'static str,
    pub zero_volume_is_unavailable: bool,
}

pub open spec fn definition_is(
    d: CorpusDefinition,
    file: Seq<char>,
    query: Seq<char>,
    role: CorpusRole,
    rows: usize,
    start: Seq<char>,
    end: Seq<char>,
    expected_sha256: Seq<char>,
    zero_volume_is_unavailable: bool,
) -> bool {
    &&& d.file@ == file
    &&& d.query@ == query
    &&& d.role == role
    &&& d.rows == rows
    &&& d.start@ == start
    &&& d.end@ == end
    &&& d.expected_sha256@ == expected_sha256
    &&& d.zero_volume_is_unavailable == zero_volume_is_unavailable
}

/// The ten pinned corpus files, in this order.
pub open spec fn is_corpus_table(defs: Seq<CorpusDefinition>) -> bool {
    &&& defs.len() == 10
    &&& definition_is(defs[0], "btc_calib.csv"@, "BTC"@, CorpusRole::Calibration, 800, "2023-01-18"@, "2026-02-20"@, "sha256:832703c05ed61404a5e4e84c72335fdd7afaef2f0600eee5b0eba9e8684f1a6e"@, false)
    &&& definition_is(defs[1], "btc_stooq.csv"@, "BTC"@, CorpusRole::Historical, 4036, "2010-07-19"@, "2026-02-20"@, "sha256:a39974c14c7d96eecfec4cab83188ed7558f28e653964c36a34c508b0a498173"@, false)
    &&& definition_is(defs[2], "gold_calib.csv"@, "GOLD"@, CorpusRole::Calibration, 800, "2023-01-17"@, "2026-02-20"@, "sha256:b9574afdbff404ead9187b3d689b99e609103694c5b58c0176c6318f4cb83704"@, false)
    &&& definition_is(defs[3], "gold_stooq.csv"@, "GOLD"@, CorpusRole::Historical, 15186, "1793-03-01"@, "2026-02-20"@, "sha256:431090e147380451039359a3eaf862f3b1e90aadbd986e3ccd2296aef6836ed5"@, false)
    &&& definition_is(defs[4], "nasdaq_calib.csv"@, "NASDAQ"@, CorpusRole::Calibration, 800, "2022-12-12"@, "2026-02-20"@, "sha256:c94aa633e297906da426d940bdfda9ac5b37a234ea7e64ccba01bb8b59c226e4"@, false)
    &&& definition_is(defs[5], "nasdaq_stooq.csv"@, "NASDAQ"@, CorpusRole::Historical, 10176, "1985-10-01"@, "2026-02-20"@, "sha256:0048a6ecf2638e3e05f28273ee52b5040001606205546e45f77937ebb5e21954"@, false)
    &&& definition_is(defs[6], "sp500_calib.csv"@, "SP500"@, CorpusRole::Calibration, 800, "2022-12-12"@, "2026-02-20"@, "sha256:d41340eb68958937ba1e98d25109559a033207cad0dd27d90a6dfdef6d509156"@, false)
    &&& definition_is(defs[7], "sp500_stooq.csv"@, "SP500"@, CorpusRole::Historical, 39639, "1789-05-01"@, "2026-02-20"@, "sha256:0949a29543a0b6aae2e9be66652850959f9342d04293b30b69e3870ac1bbe681"@, true)
    &&& definition_is(defs[8], "xrp_calib.csv"@, "XRP"@, CorpusRole::Calibration, 800, "2023-12-16"@, "2026-02-22"@, "sha256:ff988dc105665896601a6c99fddcaa553b241123f8142d1aa2d61d2cb71ea1f5"@, false)
    &&& definition_is(defs[9], "xrp_stooq.csv"@, "XRP"@, CorpusRole::Historical, 4048, "2015-01-21"@, "2026-02-22"@, "sha256:668024a9dbc834540bb4067a7050ad1c1cd07d92219fca8b64e43f881525a8b3"@, true)
}

/// The pinned corpus table.
pub fn corpus_definitions() -> (r: Vec<CorpusDefinition>)
    ensures
        is_corpus_table(r@),
{
    vec![
        CorpusDefinition {
            file: "btc_calib.csv",
            query: "BTC",
            role: CorpusRole::Calibration,
            rows: 800,
            start: "2023-01-18",
            end: "2026-02-20",
            expected_sha256: "sha256:832703c05ed61404a5e4e84c72335fdd7afaef2f0600eee5b0eba9e8684f1a6e",
            zero_volume_is_unavailable: false,
        },
        CorpusDefinition {
            file: "btc_stooq.csv",
            query: "BTC",
            role: CorpusRole::Historical,
            rows: 4036,
            start: "2010-07-19",
            end: "2026-02-20",
            expected_sha256: "sha256:a39974c14c7d96eecfec4cab83188ed7558f28e653964c36a34c508b0a498173",
            zero_volume_is_unavailable: false,
        },
        CorpusDefinition {
            file: "gold_calib.csv",
            query: "GOLD",
            role: CorpusRole::Calibration,
            rows: 800,
            start: "2023-01-17",
            end: "2026-02-20",
            expected_sha256: "sha256:b9574afdbff404ead9187b3d689b99e609103694c5b58c0176c6318f4cb83704",
            zero_volume_is_unavailable: false,
        },
        CorpusDefinition {
            file: "gold_stooq.csv",
            query: "GOLD",
            role: CorpusRole::Historical,
            rows: 15186,
            start: "1793-03-01",
            end: "2026-02-20",
            expected_sha256: "sha256:431090e147380451039359a3eaf862f3b1e90aadbd986e3ccd2296aef6836ed5",
            zero_volume_is_unavailable: false,
        },
        CorpusDefinition {
            file: "nasdaq_calib.csv",
            query: "NASDAQ",
            role: CorpusRole::Calibration,
            rows: 800,
            start: "2022-12-12",
            end: "2026-02-20",
            expected_sha256: "sha256:c94aa633e297906da426d940bdfda9ac5b37a234ea7e64ccba01bb8b59c226e4",
            zero_volume_is_unavailable: false,
        },
        CorpusDefinition {
            file: "nasdaq_stooq.csv",
            query: "NASDAQ",
            role: CorpusRole::Historical,
            rows: 10176,
            start: "1985-10-01",
            end: "2026-02-20",
            expected_sha256: "sha256:0048a6ecf2638e3e05f28273ee52b5040001606205546e45f77937ebb5e21954",
            zero_volume_is_unavailable: false,
        },
        CorpusDefinition {
            file: "sp500_calib.csv",
            query: "SP500",
            role: CorpusRole::Calibration,
            rows: 800,
            start: "2022-12-12",
            end: "2026-02-20",
            expected_sha256: "sha256:d41340eb68958937ba1e98d25109559a033207cad0dd27d90a6dfdef6d509156",
            zero_volume_is_unavailable: false,
        },
        CorpusDefinition {
            file: "sp500_stooq.csv",
            query: "SP500",
            role: CorpusRole::Historical,
            rows: 39639,
            start: "1789-05-01",
            end: "2026-02-20",
            expected_sha256: "sha256:0949a29543a0b6aae2e9be66652850959f9342d04293b30b69e3870ac1bbe681",
            zero_volume_is_unavailable: true,
        },
        CorpusDefinition {
            file: "xrp_calib.csv",
            query: "XRP",
            role: CorpusRole::Calibration,
            rows: 800,
            start: "2023-12-16",
            end: "2026-02-22",
            expected_sha256: "sha256:ff988dc105665896601a6c99fddcaa553b241123f8142d1aa2d61d2cb71ea1f5",
            zero_volume_is_unavailable: false,
        },
        CorpusDefinition {
            file: "xrp_stooq.csv",
            query: "XRP",
            role: CorpusRole::Historical,
            rows: 4048,
            start: "2015-01-21",
            end: "2026-02-22",
            expected_sha256: "sha256:668024a9dbc834540bb4067a7050ad1c1cd07d92219fca8b64e43f881525a8b3",
            zero_volume_is_unavailable: true,
        },
    ]
}

/// The definitions that play the given role, in table order.
pub open spec fn with_role(defs: Seq<CorpusDefinition>, role: CorpusRole) -> Seq<CorpusDefinition>
    decreases defs.len(),
{
    if defs.len() == 0 {
        Seq::empty()
    } else {
        let rest = with_role(defs.drop_last(), role);
        if defs.last().role == role {
            rest.push(defs.last())
        } else {
            rest
        }
    }
}

/// Only the calibration files, which the runtime serves from; the long
/// historical research files stay out of readiness, so that their absence
/// cannot take the online service down.
pub fn runtime_definitions() -> (r: Vec<CorpusDefinition>)
    ensures
        exists|table: Seq<CorpusDefinition>|
            #[trigger] is_corpus_table(table) && r@ == with_role(table, CorpusRole::Calibration),
{
    let all = corpus_definitions();
    let n = all.len();
    let mut out: Vec<CorpusDefinition> = Vec::new();
    let mut i: usize = 0;
    while i < n
        invariant
            n == all@.len(),
            i <= n,
            out@ == with_role(all@.subrange(0, i as int), CorpusRole::Calibration),
        decreases n - i,
    {
        assert(all@.subrange(0, i + 1).drop_last() =~= all@.subrange(0, i as int));
        let definition = all[i];
        match definition.role {
            CorpusRole::Calibration => out.push(definition),
            CorpusRole::Historical => {},
        }
        i = i + 1;
    }
    assert(all@.subrange(0, n as int) =~= all@);
    assert(is_corpus_table(all@));
    out
}

/// Why a corpus audit stopped. Reading and parsing happen before the audit
/// proper and report their failures as text.
#[derive(Debug, Clone, PartialEq, Eq)]
pub enum CorpusError {
    Historical(String),
    Io(String),
    Csv(String),
    Resolution(String),
    Empty(String),
    Hash(String),
}

/// The text of a corpus error.
pub open spec fn corpus_error_text(e: CorpusError) -> Seq<char> {
    match e {
        CorpusError::Historical(text) => text@,
        CorpusError::Io(text) => "I/O error: "@ + text@,
        CorpusError::Csv(text) => "CSV error: "@ + text@,
        CorpusError::Resolution(query) => "catalog instrument `"@ + query@
            + "` cannot be resolved uniquely"@,
        CorpusError::Empty(file) => "corpus file `"@ + file@ + "` is empty"@,
        CorpusError::Hash(text) => "canonical hashing failed: "@ + text@,
    }
}

impl CorpusError {
    /// Describes the error.
    pub fn message(&self) -> (r: String)
        ensures
            r@ == corpus_error_text(*self),
    {
        match self {
            CorpusError::Historical(text) => text.clone(),
            CorpusError::Io(text) => concat("I/O error: ", text.as_str()),
            CorpusError::Csv(text) => concat("CSV error: ", text.as_str()),
            CorpusError::Resolution(query) => {
                let mut out = concat("catalog instrument `", query.as_str());
                push_text(&mut out, "` cannot be resolved uniquely");
                out
            },
            CorpusError::Empty(file) => {
                let mut out = concat("corpus file `", file.as_str());
                push_text(&mut out, "` is empty");
                out
            },
            CorpusError::Hash(text) => concat("canonical hashing failed: ", text.as_str()),
        }
    }
}

/// What was read from one corpus file: its bytes, the number of CSV records,
/// and, of the records that form valid daily bars, their open times in order
/// and how many carry an available volume.
#[derive(Debug, Clone)]
pub struct CorpusFileInput {
    pub bytes: Vec<u8>,
    pub raw_rows: usize,
    pub open_times: Vec<i64>,
    pub volume_available_rows: usize,
}

/// Valid bars come from records, and available volumes from valid bars.
pub open spec fn input_is_consistent(input: CorpusFileInput) -> bool {
    &&& input.open_times@.len() <= input.raw_rows
    &&& input.volume_available_rows <= input.open_times@.len()
    &&& gaps_fit(input.open_times@)
}

/// The open times of the kept rows.
pub open spec fn plan_open_times(plan: Seq<DailyRowPlan>) -> Seq<i64> {
    plan.map_values(|p: DailyRowPlan| p.open_time_ns)
}

/// The number of kept rows whose volume is available.
pub open spec fn available_volumes(plan: Seq<DailyRowPlan>) -> nat
    decreases plan.len(),
{
    if plan.len() == 0 {
        0
    } else {
        available_volumes(plan.drop_last()) + if plan.last().volume_available {
            1nat
        } else {
            0nat
        }
    }
}

/// The error texts that reading a corpus file can end in, beyond those of
/// the CSV reader and the daily format.
pub open spec fn checks_mismatch_text() -> Seq<char> {
    "price checks do not match the CSV records"@
}

pub open spec fn too_many_records_text() -> Seq<char> {
    "too many CSV records to number"@
}

pub open spec fn surplus_rows_text() -> Seq<char> {
    "more valid bars than CSV records"@
}

pub open spec fn wide_gap_text() -> Seq<char> {
    "gap between consecutive open times exceeds the nanosecond range"@
}

/// What reading a corpus file gives, given the caller's price checks of
/// the daily table of the same bytes: the records counted by a strict CSV
/// reader (a CSV error first), then the daily bars kept with malformed OHLC
/// rows excluded (a loading error, by its text), then their open times and
/// available volumes.
pub open spec fn corpus_input_is(
    bytes: Seq<u8>,
    checks: Seq<PriceCheck>,
    zero_volume_is_unavailable: bool,
    r: Result<CorpusFileInput, CorpusError>,
) -> bool {
    let (_, strict_records, strict_error) = csv_text_of(bytes, false);
    let policy = HistoricalLoadPolicy { zero_volume_is_unavailable, exclude_malformed_ohlc: true };
    match strict_error {
        Some(m) => r matches Err(CorpusError::Csv(e)) && e@ == m,
        None => exists|t: Result<DailyTable, HistoricalError>|
            #[trigger] daily_table_is(bytes, t) && match t {
                Err(e) => r matches Err(CorpusError::Historical(x)) && x@ == historical_error_text(e),
                Ok(table) => if checks.len() != table.rows@.len() {
                    r matches Err(CorpusError::Csv(x)) && x@ == checks_mismatch_text()
                } else if table.rows@.len() + 2 > usize::MAX {
                    r matches Err(CorpusError::Csv(x)) && x@ == too_many_records_text()
                } else {
                    match daily_rows_of(table.rows@, opt_text(table.error), checks, policy) {
                        Err(f) => r matches Err(CorpusError::Historical(x)) && exists|e: HistoricalError|
                            #![trigger fault_of(e)]
                            fault_of(e) == f && x@ == historical_error_text(e),
                        Ok(plan) => if plan.len() > strict_records.len() {
                            r matches Err(CorpusError::Csv(x)) && x@ == surplus_rows_text()
                        } else if !gaps_fit(plan_open_times(plan)) {
                            r matches Err(CorpusError::Historical(x)) && x@ == wide_gap_text()
                        } else {
                            r matches Ok(input) && input.bytes@ == bytes && input.raw_rows
                                == strict_records.len() && input.open_times@ == plan_open_times(plan)
                                && input.volume_available_rows == available_volumes(plan)
                        }
                    }
                },
            },
    }
}

impl CorpusFileInput {
    /// Reads a corpus file's bytes: the strict CSV record count, and the
    /// daily bars that the format keeps, given the caller's checks of the
    /// prices of each record of `read_daily_table` on the same bytes.
    pub fn read(bytes: Vec<u8>, checks: &[PriceCheck], zero_volume_is_unavailable: bool) -> (r: Result<
        CorpusFileInput,
        CorpusError,
    >)
        ensures
            corpus_input_is(bytes@, checks@, zero_volume_is_unavailable, r),
            r matches Ok(input) ==> input_is_consistent(input),
    {
        let strict = read_csv(bytes.as_slice(), false);
        let raw_rows = match record_count(&strict) {
            Ok(count) => count,
            Err(m) => {
                return Err(CorpusError::Csv(m));
            },
        };
        let policy = HistoricalLoadPolicy { zero_volume_is_unavailable, exclude_malformed_ohlc: true };
        let table = read_daily_table(bytes.as_slice());
        let ghost t = table;
        let table = match table {
            Ok(table) => table,
            Err(e) => {
                let message = e.message();
                assert(daily_table_is(bytes@, t));
                return Err(CorpusError::Historical(message));
            },
        };
        if checks.len() != table.rows.len() {
            assert(daily_table_is(bytes@, t));
            return Err(CorpusError::Csv("price checks do not match the CSV records".to_owned()));
        }
        if table.rows.len() > usize::MAX - 2 {
            assert(daily_table_is(bytes@, t));
            return Err(CorpusError::Csv("too many CSV records to number".to_owned()));
        }
        let plan = match plan_daily_rows(&table, checks, policy) {
            Ok(plan) => plan,
            Err(e) => {
                let message = e.message();
                assert(daily_table_is(bytes@, t));
                return Err(CorpusError::Historical(message));
            },
        };
        if plan.len() > raw_rows {
            assert(daily_table_is(bytes@, t));
            return Err(CorpusError::Csv("more valid bars than CSV records".to_owned()));
        }
        let mut open_times: Vec<i64> = Vec::new();
        let mut available: usize = 0;
        let mut k: usize = 0;
        while k < plan.len()
            invariant
                daily_table_is(bytes@, t),
                t matches Ok(tt) && tt == table,
                checks@.len() == table.rows@.len(),
                table.rows@.len() + 2 <= usize::MAX,
                policy == (HistoricalLoadPolicy { zero_volume_is_unavailable, exclude_malformed_ohlc: true }),
                daily_rows_of(table.rows@, opt_text(table.error), checks@, policy)
                    == Ok::<Seq<DailyRowPlan>, DailyFault>(plan@),
                csv_text_of(bytes@, false).2 is None,
                raw_rows == csv_text_of(bytes@, false).1.len(),
                plan@.len() <= raw_rows,
                k <= plan@.len(),
                open_times@ == plan_open_times(plan@.subrange(0, k as int)),
                available == available_volumes(plan@.subrange(0, k as int)),
                available <= k,
                gaps_fit(open_times@),
            decreases plan@.len() - k,
        {
            let p = plan[k];
            proof {
                let pre = plan@.subrange(0, k + 1);
                assert(pre.drop_last() =~= plan@.subrange(0, k as int));
                assert(plan_open_times(pre) =~= plan_open_times(plan@.subrange(0, k as int)).push(p.open_time_ns));
            }
            if k > 0 {
                let previous = open_times[k - 1];
                if p.open_time_ns.checked_sub(previous).is_none() {
                    proof {
                        let times = plan_open_times(plan@);
                        assert(times[k as int] == p.open_time_ns);
                        assert(open_times@[k - 1] == plan_open_times(plan@.subrange(0, k as int))[k - 1]);
                        assert(times[(k - 1) + 1] - times[k - 1] < i64::MIN || times[(k - 1) + 1] - times[k - 1] > i64::MAX);
                        assert(!gaps_fit(times));
                    }
                    assert(daily_table_is(bytes@, t));
                    return Err(CorpusError::Historical(
                        "gap between consecutive open times exceeds the nanosecond range".to_owned(),
                    ));
                }
            }
            open_times.push(p.open_time_ns);
            if p.volume_available {
                available = available + 1;
            }
            k = k + 1;
        }
        assert(plan@.subrange(0, plan@.len() as int) =~= plan@);
        assert(daily_table_is(bytes@, t));
        Ok(CorpusFileInput { bytes, raw_rows, open_times, volume_available_rows: available })
    }
}

/// The decimal digits of `n`, the last `width` of them, zero-padded.
pub open spec fn padded_digits(n: int, width: nat) -> Seq<char>
    decreases width,
{
    if width == 0 {
        Seq::empty()
    } else {
        padded_digits(n / 10, (width - 1) as nat).push(digit_char((n % 10) as nat))
    }
}

/// The calendar date, `YYYY-MM-DD` in UTC, of an instant given in
/// nanoseconds since the Unix epoch. Every such instant falls in a year
/// with four digits.
#[verifier::opaque]
pub open spec fn utc_date_of(timestamp_ns: i64) -> Seq<char> {
    let (y, m, d) = civil_from_days(day_of_instant(timestamp_ns));
    padded_digits(y, 4) + "-"@ + padded_digits(m, 2) + "-"@ + padded_digits(d, 2)
}

/// Trusted: chrono's `DateTime::<Utc>::from_timestamp_nanos`, formatted with
/// `%Y-%m-%d`: the instant's proleptic Gregorian date in UTC, the year in
/// four digits and month and day in two.
#[verifier::external_body]
fn utc_date_string(timestamp_ns: i64) -> (r: String)
    ensures
        r@ == utc_date_of(timestamp_ns),
{
    chrono::DateTime::<chrono::Utc>::from_timestamp_nanos(timestamp_ns).format("%Y-%m-%d").to_string()
}

/// A file is accepted when its record count, first and last dates and raw
/// digest all equal the pinned ones.
pub open spec fn is_accepted(
    definition: CorpusDefinition,
    raw_rows: int,
    actual_start: Seq<char>,
    actual_end: Seq<char>,
    input_sha256: Seq<char>,
) -> bool {
    &&& raw_rows == definition.rows
    &&& actual_start == definition.start@
    &&& actual_end == definition.end@
    &&& input_sha256 == definition.expected_sha256@
}

/// A rejected file stays rejected; an accepted one is marked when malformed
/// records were left out.
pub open spec fn file_status(accepted: bool, malformed_rows: int) -> CorpusFileStatus {
    if !accepted {
        CorpusFileStatus::Rejected
    } else if malformed_rows > 0 {
        CorpusFileStatus::AcceptedWithExclusions
    } else {
        CorpusFileStatus::Accepted
    }
}

/// The report of a file, field by field, from what was measured of it.
pub open spec fn report_holds(
    r: CorpusFileReport,
    definition: CorpusDefinition,
    instrument_id: Seq<char>,
    raw_rows: int,
    valid_rows: int,
    actual_start: Seq<char>,
    actual_end: Seq<char>,
    cadence_anomalies: int,
    volume_available_rows: int,
    input_sha256: Seq<char>,
) -> bool {
    &&& r.file@ == definition.file@
    &&& r.role == definition.role
    &&& r.instrument_id@ == instrument_id
    &&& r.expected_rows == definition.rows
    &&& r.actual_rows == raw_rows
    &&& r.valid_rows == valid_rows
    &&& r.malformed_rows_excluded == raw_rows - valid_rows
    &&& r.expected_start@ == definition.start@
    &&& r.actual_start@ == actual_start
    &&& r.expected_end@ == definition.end@
    &&& r.actual_end@ == actual_end
    &&& r.cadence_anomalies == cadence_anomalies
    &&& r.volume_available_rows == volume_available_rows
    &&& r.volume_unavailable_rows == valid_rows - volume_available_rows
    &&& r.input_sha256@ == input_sha256
    &&& r.accepted == is_accepted(definition, raw_rows, actual_start, actual_end, input_sha256)
    &&& r.status == file_status(r.accepted, raw_rows - valid_rows)
}

/// Assesses one corpus file from what was measured of it.
pub fn assess_corpus_file(
    definition: &CorpusDefinition,
    instrument_id: String,
    raw_rows: usize,
    valid_rows: usize,
    actual_start: String,
    actual_end: String,
    cadence_anomalies: usize,
    volume_available_rows: usize,
    input_sha256: String,
) -> (r: CorpusFileReport)
    requires
        valid_rows <= raw_rows,
        volume_available_rows <= valid_rows,
    ensures
        report_holds(
            r,
            *definition,
            instrument_id@,
            raw_rows as int,
            valid_rows as int,
            actual_start@,
            actual_end@,
            cadence_anomalies as int,
            volume_available_rows as int,
            input_sha256@,
        ),
{
    let accepted = raw_rows == definition.rows && text_eq(actual_start.as_str(), definition.start)
        && text_eq(actual_end.as_str(), definition.end) && text_eq(
        input_sha256.as_str(),
        definition.expected_sha256,
    );
    let malformed_rows_excluded = raw_rows - valid_rows;
    let status = if !accepted {
        CorpusFileStatus::Rejected
    } else if malformed_rows_excluded > 0 {
        CorpusFileStatus::AcceptedWithExclusions
    } else {
        CorpusFileStatus::Accepted
    };
    CorpusFileReport {
        file: definition.file.to_owned(),
        role: definition.role,
        instrument_id,
        expected_rows: definition.rows,
        actual_rows: raw_rows,
        valid_rows,
        malformed_rows_excluded,
        expected_start: definition.start.to_owned(),
        actual_start,
        expected_end: definition.end.to_owned(),
        actual_end,
        cadence_anomalies,
        volume_available_rows,
        volume_unavailable_rows: valid_rows - volume_available_rows,
        input_sha256,
        status,
        accepted,
    }
}

/// The report of a file that holds at least one valid bar, for an instrument
/// with the given identifier and session calendar.
pub open spec fn file_report_is(
    r: CorpusFileReport,
    definition: CorpusDefinition,
    instrument_id: Seq<char>,
    calendar: SessionCalendar,
    input: CorpusFileInput,
) -> bool {
    let times = input.open_times@;
    report_holds(
        r,
        definition,
        instrument_id,
        input.raw_rows as int,
        times.len() as int,
        utc_date_of(times[0]),
        utc_date_of(times.last()),
        anomalies_of(times, daily_cadence(calendar)).len() as int,
        input.volume_available_rows as int,
        digest_text(input.bytes@),
    )
}

/// Audits one file: its dates, digest and daily cadence. A file without a
/// valid bar is an error.
pub fn audit_file(
    definition: &CorpusDefinition,
    instrument: &Instrument,
    input: &CorpusFileInput,
) -> (r: Result<CorpusFileReport, CorpusError>)
    requires
        input_is_consistent(*input),
    ensures
        match r {
            Ok(report) => {
                &&& input.open_times@.len() > 0
                &&& file_report_is(
                    report,
                    *definition,
                    instrument.instrument_id@,
                    instrument.session_calendar,
                    *input,
                )
            },
            Err(e) => {
                &&& input.open_times@.len() == 0
                &&& e matches CorpusError::Empty(file) && file@ == definition.file@
            },
        },
{
    let n = input.open_times.len();
    if n == 0 {
        return Err(CorpusError::Empty(definition.file.to_owned()));
    }
    let actual_start = utc_date_string(input.open_times[0]);
    let actual_end = utc_date_string(input.open_times[n - 1]);
    let anomalies = cadence_anomalies(
        input.open_times.as_slice(),
        CadencePolicy::daily(instrument.session_calendar),
    );
    let input_sha256 = sha256_text(input.bytes.as_slice());
    Ok(
        assess_corpus_file(
            definition,
            instrument.instrument_id.clone(),
            input.raw_rows,
            n,
            actual_start,
            actual_end,
            anomalies.len(),
            input.volume_available_rows,
            input_sha256,
        ),
    )
}

/// The instrument that a catalog query names, when it names exactly one.
pub fn resolve_instrument(resolver: &AssetResolver, query: &str) -> (r: Result<
    Instrument,
    CorpusError,
>)
    ensures
        r is Ok <==> resolves_to_one(resolver.catalog(), query@),
        match r {
            Ok(instrument) => resolution_ok(
                Resolution::Found { instrument },
                resolver.catalog(),
                query@,
            ),
            Err(e) => e matches CorpusError::Resolution(q) && q@ == query@,
        },
{
    let resolution = resolver.resolve(query);
    let ghost answer = resolution;
    match resolution {
        Resolution::Found { instrument } => Ok(instrument),
        _ => {
            proof {
                if resolves_to_one(resolver.catalog(), query@) {
                    let found = choose|instrument: Instrument|
                        #[trigger] resolution_ok(
                            Resolution::Found { instrument },
                            resolver.catalog(),
                            query@,
                        );
                    lemma_found_is_exclusive(answer, resolver.catalog(), query@, found);
                }
            }
            Err(CorpusError::Resolution(query.to_owned()))
        },
    }
}

/// File `i` of an audit goes through: its query names one instrument and its
/// input holds a valid bar.
pub open spec fn file_passes(
    catalog: Seq<CatalogEntry>,
    definition: CorpusDefinition,
    input: CorpusFileInput,
) -> bool {
    resolves_to_one(catalog, definition.query@) && input.open_times@.len() > 0
}

/// The error that stops an audit at a file that does not go through.
pub open spec fn file_failure(
    catalog: Seq<CatalogEntry>,
    definition: CorpusDefinition,
    input: CorpusFileInput,
    e: CorpusError,
) -> bool {
    match e {
        CorpusError::Resolution(query) => {
            &&& !resolves_to_one(catalog, definition.query@)
            &&& query@ == definition.query@
        },
        CorpusError::Empty(file) => {
            &&& resolves_to_one(catalog, definition.query@)
            &&& input.open_times@.len() == 0
            &&& file@ == definition.file@
        },
        _ => false,
    }
}

/// The report of an audited file, for the instrument that its query names.
pub open spec fn audited_file(
    catalog: Seq<CatalogEntry>,
    definition: CorpusDefinition,
    input: CorpusFileInput,
    report: CorpusFileReport,
) -> bool {
    exists|instrument: Instrument|
        #[trigger] resolution_ok(Resolution::Found { instrument }, catalog, definition.query@)
            && file_report_is(
            report,
            definition,
            instrument.instrument_id@,
            instrument.session_calendar,
            input,
        )
}

/// What an audit of the definitions, over the inputs read for them, answers:
/// the report of every file in order when all go through, else the error of
/// the first that does not.
pub open spec fn audit_outcome(
    catalog: Seq<CatalogEntry>,
    definitions: Seq<CorpusDefinition>,
    inputs: Seq<CorpusFileInput>,
    r: Result<CorpusAuditReport, CorpusError>,
) -> bool {
    &&& r is Ok <==> forall|i: int|
        0 <= i < definitions.len() ==> #[trigger] file_passes(catalog, definitions[i], inputs[i])
    &&& match r {
        Ok(report) => {
            &&& report.schema@ == CORPUS_AUDIT_SCHEMA@
            &&& report.files@.len() == definitions.len()
            &&& forall|i: int|
                0 <= i < definitions.len() ==> #[trigger] audited_file(
                    catalog,
                    definitions[i],
                    inputs[i],
                    report.files@[i],
                )
            &&& report.all_files_accepted == forall|i: int|
                0 <= i < report.files@.len() ==> #[trigger] report.files@[i].accepted
            &&& report.report_sha256.is_none()
        },
        Err(e) => exists|i: int|
            0 <= i < definitions.len() && (forall|j: int|
                0 <= j < i ==> #[trigger] file_passes(catalog, definitions[j], inputs[j]))
                && #[trigger] file_failure(catalog, definitions[i], inputs[i], e),
    }
}

/// Audits each definition against the input read for it, in order. The
/// report's digest is left unset: `audit_corpus` and `audit_runtime_corpus`
/// seal it.
pub fn audit_definitions(
    resolver: &AssetResolver,
    definitions: &[CorpusDefinition],
    inputs: &[CorpusFileInput],
) -> (r: Result<CorpusAuditReport, CorpusError>)
    requires
        definitions.len() == inputs.len(),
        forall|i: int| 0 <= i < inputs.len() ==> input_is_consistent(#[trigger] inputs@[i]),
    ensures
        audit_outcome(resolver.catalog(), definitions@, inputs@, r),
{
    let n = definitions.len();
    let ghost catalog = resolver.catalog();
    let mut files: Vec<CorpusFileReport> = Vec::new();
    let mut all_files_accepted = true;
    let mut i: usize = 0;
    while i < n
        invariant
            n == definitions@.len(),
            n == inputs@.len(),
            catalog == resolver.catalog(),
            forall|k: int| 0 <= k < inputs.len() ==> input_is_consistent(#[trigger] inputs@[k]),
            i <= n,
            files@.len() == i,
            forall|k: int| 0 <= k < i ==> #[trigger] file_passes(catalog, definitions@[k], inputs@[k]),
            forall|k: int|
                0 <= k < i ==> #[trigger] audited_file(
                    catalog,
                    definitions@[k],
                    inputs@[k],
                    files@[k],
                ),
            all_files_accepted == forall|k: int| 0 <= k < i ==> #[trigger] files@[k].accepted,
        decreases n - i,
    {
        let definition = &definitions[i];
        let input = &inputs[i];
        let instrument = match resolve_instrument(resolver, definition.query) {
            Ok(instrument) => instrument,
            Err(e) => {
                assert(file_failure(catalog, definitions@[i as int], inputs@[i as int], e));
                assert(!file_passes(catalog, definitions@[i as int], inputs@[i as int]));
                return Err(e);
            },
        };
        let report = match audit_file(definition, &instrument, input) {
            Ok(report) => report,
            Err(e) => {
                assert(file_failure(catalog, definitions@[i as int], inputs@[i as int], e));
                assert(!file_passes(catalog, definitions@[i as int], inputs@[i as int]));
                return Err(e);
            },
        };
        assert(resolution_ok(Resolution::Found { instrument }, catalog, definition.query@));
        assert(audited_file(catalog, definitions@[i as int], inputs@[i as int], report));
        assert(file_passes(catalog, definitions@[i as int], inputs@[i as int]));
        let ghost before = files@;
        let ghost accepted_before = all_files_accepted;
        let ghost pushed = report;
        all_files_accepted = all_files_accepted && report.accepted;
        files.push(report);
        assert(forall|k: int| 0 <= k < i ==> files@[k] == before[k]);
        assert(files@[i as int] == pushed);
        assert(all_files_accepted == forall|k: int| 0 <= k < i + 1 ==> #[trigger] files@[k].accepted) by {
            if accepted_before && pushed.accepted {
                assert forall|k: int| 0 <= k < i + 1 implies #[trigger] files@[k].accepted by {
                    if k < i {
                        assert(before[k].accepted);
                    }
                }
            }
        }
        i = i + 1;
    }
    let report = CorpusAuditReport {
        schema: CORPUS_AUDIT_SCHEMA.to_owned(),
        files,
        all_files_accepted,
        report_sha256: None,
    };
    Ok(report)
}

/// `sealed` is `report` with its digest set to that of `canonical_json`.
pub open spec fn is_sealed(
    report: CorpusAuditReport,
    canonical_json: Seq<u8>,
    sealed: CorpusAuditReport,
) -> bool {
    &&& sealed.schema == report.schema
    &&& sealed.files == report.files
    &&& sealed.all_files_accepted == report.all_files_accepted
    &&& sealed.report_sha256 matches Some(digest) && digest@ == digest_text(canonical_json)
}

/// What an audit answers once its report is sealed: an unsealed failure
/// stands; an unsealed report is handed to `canonical_json`, and the answer
/// is the report sealed with the bytes it gave, or a hashing error carrying
/// the message it gave.
pub open spec fn sealed_outcome<F: Fn(&CorpusAuditReport) -> Result<Vec<u8>, String>>(
    unsealed: Result<CorpusAuditReport, CorpusError>,
    canonical_json: F,
    r: Result<CorpusAuditReport, CorpusError>,
) -> bool {
    match unsealed {
        Err(e) => r == Err::<CorpusAuditReport, CorpusError>(e),
        Ok(report) => match r {
            Ok(sealed) => exists|bytes: Vec<u8>|
                #[trigger] canonical_json.ensures((&report,), Ok::<Vec<u8>, String>(bytes))
                    && is_sealed(report, bytes@, sealed),
            Err(e) => exists|message: String|
                #[trigger] canonical_json.ensures((&report,), Err::<Vec<u8>, String>(message))
                    && e == CorpusError::Hash(message),
        },
    }
}

/// Seals an audit's report with the digest of its canonical JSON, which
/// `canonical_json` writes for the report with its digest unset.
fn seal_outcome<F: Fn(&CorpusAuditReport) -> Result<Vec<u8>, String>>(
    unsealed: Result<CorpusAuditReport, CorpusError>,
    canonical_json: &F,
) -> (r: Result<CorpusAuditReport, CorpusError>)
    requires
        forall|report: CorpusAuditReport| canonical_json.requires((&report,)),
    ensures
        sealed_outcome(unsealed, *canonical_json, r),
{
    match unsealed {
        Err(e) => Err(e),
        Ok(report) => match canonical_json(&report) {
            Ok(bytes) => {
                let sealed = seal_audit_report(report, bytes.as_slice());
                Ok(sealed)
            },
            Err(message) => Err(CorpusError::Hash(message)),
        },
    }
}

/// Audits every pinned corpus file, each against the input read for it, in
/// table order, and seals the report with the digest of its canonical JSON,
/// which `canonical_json` writes for the report with its digest unset.
pub fn audit_corpus<F: Fn(&CorpusAuditReport) -> Result<Vec<u8>, String>>(
    inputs: &[CorpusFileInput],
    canonical_json: F,
) -> (r: Result<CorpusAuditReport, CorpusError>)
    requires
        inputs.len() == 10,
        forall|i: int| 0 <= i < inputs.len() ==> input_is_consistent(#[trigger] inputs@[i]),
        forall|report: CorpusAuditReport| canonical_json.requires((&report,)),
    ensures
        exists|catalog: Seq<CatalogEntry>, table: Seq<CorpusDefinition>, unsealed: Result<
            CorpusAuditReport,
            CorpusError,
        >|
            #![trigger is_default_catalog(catalog), is_corpus_table(table), audit_outcome(catalog, table, inputs@, unsealed)]
            is_default_catalog(catalog) && is_corpus_table(table) && audit_outcome(
                catalog,
                table,
                inputs@,
                unsealed,
            ) && sealed_outcome(unsealed, canonical_json, r),
{
    let resolver = AssetResolver::default();
    let definitions = corpus_definitions();
    let unsealed = audit_definitions(&resolver, definitions.as_slice(), inputs);
    assert(is_default_catalog(resolver.catalog()) && is_corpus_table(definitions@));
    let r = seal_outcome(unsealed, &canonical_json);
    assert(audit_outcome(resolver.catalog(), definitions@, inputs@, unsealed));
    r
}

/// Audits only the calibration files that the runtime serves from, each
/// against the input read for it, in table order, and seals the report as
/// `audit_corpus` does.
pub fn audit_runtime_corpus<F: Fn(&CorpusAuditReport) -> Result<Vec<u8>, String>>(
    inputs: &[CorpusFileInput],
    canonical_json: F,
) -> (r: Result<CorpusAuditReport, CorpusError>)
    requires
        inputs.len() == 5,
        forall|i: int| 0 <= i < inputs.len() ==> input_is_consistent(#[trigger] inputs@[i]),
        forall|report: CorpusAuditReport| canonical_json.requires((&report,)),
    ensures
        exists|catalog: Seq<CatalogEntry>, table: Seq<CorpusDefinition>, unsealed: Result<
            CorpusAuditReport,
            CorpusError,
        >|
            #![trigger is_default_catalog(catalog), is_corpus_table(table), audit_outcome(catalog, with_role(table, CorpusRole::Calibration), inputs@, unsealed)]
            is_default_catalog(catalog) && is_corpus_table(table) && audit_outcome(
                catalog,
                with_role(table, CorpusRole::Calibration),
                inputs@,
                unsealed,
            ) && sealed_outcome(unsealed, canonical_json, r),
{
    let resolver = AssetResolver::default();
    let definitions = runtime_definitions();
    let ghost table = choose|table: Seq<CorpusDefinition>|
        #[trigger] is_corpus_table(table) && definitions@ == with_role(table, CorpusRole::Calibration);
    proof {
        lemma_runtime_count(table);
    }
    let unsealed = audit_definitions(&resolver, definitions.as_slice(), inputs);
    assert(is_default_catalog(resolver.catalog()) && is_corpus_table(table));
    let r = seal_outcome(unsealed, &canonical_json);
    assert(audit_outcome(
        resolver.catalog(),
        with_role(table, CorpusRole::Calibration),
        inputs@,
        unsealed,
    ));
    r
}

/// The pinned table holds five calibration files.
proof fn lemma_runtime_count(table: Seq<CorpusDefinition>)
    requires
        is_corpus_table(table),
    ensures
        with_role(table, CorpusRole::Calibration).len() == 5,
{
    reveal_with_fuel(with_role, 11);
    assert(table.subrange(0, 10) =~= table);
}

/// Sets the report's digest: the `sha256:` digest of its canonical JSON
/// bytes, which are those of the report with the digest unset.
pub fn seal_audit_report(report: CorpusAuditReport, canonical_json: &[u8]) -> (r: CorpusAuditReport)
    ensures
        r.schema == report.schema,
        r.files == report.files,
        r.all_files_accepted == report.all_files_accepted,
        r.report_sha256 matches Some(digest) && digest@ == digest_text(canonical_json@),
{
    let digest = sha256_text(canonical_json);
    CorpusAuditReport { report_sha256: Some(digest), ..report }
}

} // verus!
