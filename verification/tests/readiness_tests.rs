use financial_signal::contracts::Timeframe;
use financial_signal::corpus::{CorpusAuditReport, CorpusError, CorpusFileReport, CorpusFileStatus, CorpusRole};
use financial_signal::readiness::{
    decimal_text, evaluate_runtime_readiness, evaluate_runtime_readiness_at, health_status,
    inspect_profiles, is_profile_file_name, report_end_exclusive_ns, ProfileFacts,
    RuntimeReadiness,
};
use financial_signal::service::parse_timeframe;

const FEB_21_2026_NS: i64 = 1_771_632_000_000_000_000;

fn file(name: &str, id: &str, accepted: bool, anomalies: usize) -> CorpusFileReport {
    CorpusFileReport {
        file: name.into(),
        role: CorpusRole::Calibration,
        instrument_id: id.into(),
        expected_rows: 800,
        actual_rows: 800,
        valid_rows: 800,
        malformed_rows_excluded: 0,
        expected_start: "2023-01-18".into(),
        actual_start: "2023-01-18".into(),
        expected_end: "2026-02-20".into(),
        actual_end: "2026-02-20".into(),
        cadence_anomalies: anomalies,
        volume_available_rows: 800,
        volume_unavailable_rows: 0,
        input_sha256: "sha256:x".into(),
        status: if accepted { CorpusFileStatus::Accepted } else { CorpusFileStatus::Rejected },
        accepted,
    }
}

fn report(files: Vec<CorpusFileReport>) -> CorpusAuditReport {
    CorpusAuditReport {
        schema: "pramagraph.financial_corpus_audit.v1".into(),
        all_files_accepted: files.iter().all(|f| f.accepted),
        files,
        report_sha256: None,
    }
}

fn facts(file_name: &str, id: &str, timeframe: Timeframe, end_ns: i64, eligible: bool) -> ProfileFacts {
    ProfileFacts {
        file_name: file_name.into(),
        instrument_id: id.into(),
        timeframe,
        calibration_end_ns: end_ns,
        publication_eligible: eligible,
    }
}

#[test]
fn decimal_text_of_counts() {
    assert_eq!(decimal_text(0), "0");
    assert_eq!(decimal_text(7), "7");
    assert_eq!(decimal_text(1203), "1203");
    assert_eq!(decimal_text(usize::MAX), usize::MAX.to_string());
}

#[test]
fn day_end_of_report_dates() {
    assert_eq!(report_end_exclusive_ns("2026-02-20"), Some(FEB_21_2026_NS));
    assert_eq!(report_end_exclusive_ns("1970-01-01"), Some(86_400_000_000_000));
    assert_eq!(report_end_exclusive_ns("not a date"), None);
}

#[test]
fn profile_file_names_by_suffix() {
    assert!(is_profile_file_name("crypto_binance_BTCUSDT_D1.resolution.json"));
    assert!(is_profile_file_name(".resolution.json"));
    assert!(!is_profile_file_name("resolution.json"));
    assert!(!is_profile_file_name("x.resolution.json.bak"));
}

#[test]
fn ready_when_corpus_and_profiles_agree() {
    let corpus = Ok(report(vec![file("btc_calib.csv", "crypto:binance:BTCUSDT", true, 0)]));
    let profiles = Ok(vec![Ok(facts(
        "crypto_binance_BTCUSDT_D1.resolution.json",
        "crypto:binance:BTCUSDT",
        Timeframe::D1,
        FEB_21_2026_NS,
        true,
    ))]);
    let readiness = evaluate_runtime_readiness_at(&corpus, &profiles, FEB_21_2026_NS);
    assert!(readiness.is_ready(), "{:?}", readiness.errors);
    assert!(readiness.warnings.is_empty());
    assert_eq!(health_status(&readiness), (200, "READY"));
}

#[test]
fn stale_and_anomalous_corpus_warns() {
    let corpus = Ok(report(vec![file("btc_calib.csv", "crypto:binance:BTCUSDT", true, 3)]));
    let profiles = Ok(vec![Ok(facts(
        "crypto_binance_BTCUSDT_D1.resolution.json",
        "crypto:binance:BTCUSDT",
        Timeframe::D1,
        0,
        true,
    ))]);
    let readiness = evaluate_runtime_readiness_at(&corpus, &profiles, FEB_21_2026_NS + 1);
    assert_eq!(
        readiness.warnings,
        vec![
            "runtime corpus btc_calib.csv has 3 cadence anomalies; publication remains gated".to_string(),
            "runtime corpus btc_calib.csv is historical; native responses are marked STALE_DATA".to_string(),
        ]
    );
    assert_eq!(
        readiness.errors,
        vec!["publication-eligible profile crypto_binance_BTCUSDT_D1.resolution.json uses a corpus with 3 cadence anomalies".to_string()]
    );
    assert_eq!(health_status(&readiness), (503, "NOT_READY"));
}

#[test]
fn profile_problems_are_errors() {
    let corpus = report(vec![
        file("btc_calib.csv", "crypto:binance:BTCUSDT", false, 0),
        file("gold_calib.csv", "futures:massive:GC", true, 0),
    ]);
    let profiles = vec![
        Err("profile broken.resolution.json is invalid JSON: eof".to_string()),
        Ok(facts("wrong.resolution.json", "crypto:binance:BTCUSDT", Timeframe::W1, FEB_21_2026_NS + 1, false)),
        Ok(facts("crypto_binance_XRPUSDT_D1.resolution.json", "crypto:binance:XRPUSDT", Timeframe::D1, 0, false)),
    ];
    let readiness = evaluate_runtime_readiness_at(&Ok(corpus), &Ok(profiles), 0);
    assert_eq!(
        readiness.errors,
        vec![
            "runtime corpus btc_calib.csv failed pinned structure/hash validation".to_string(),
            "profile broken.resolution.json is invalid JSON: eof".to_string(),
            "profile wrong.resolution.json identity requires filename crypto_binance_BTCUSDT_W1.resolution.json".to_string(),
            "profile wrong.resolution.json extends beyond serving-corpus coverage".to_string(),
            "profile crypto_binance_XRPUSDT_D1.resolution.json has no serving corpus for crypto:binance:XRPUSDT".to_string(),
            "serving corpus btc_calib.csv has no validated D1 resolution profile".to_string(),
            "serving corpus gold_calib.csv has no validated D1 resolution profile".to_string(),
        ]
    );
    assert!(readiness.warnings.is_empty());
}

#[test]
fn missing_profiles_and_failed_audits() {
    let corpus = Ok(report(vec![file("btc_calib.csv", "crypto:binance:BTCUSDT", true, 0)]));
    let none = evaluate_runtime_readiness_at(&corpus, &Ok(vec![]), 0);
    assert_eq!(none.errors, vec!["no resolution profiles are available".to_string()]);
    let unlisted = evaluate_runtime_readiness_at(&corpus, &Err("denied".to_string()), 0);
    assert_eq!(unlisted.errors, vec!["calibration directory is unavailable: denied".to_string()]);
    let failed = evaluate_runtime_readiness(&Err(CorpusError::Empty("btc_calib.csv".into())), &Ok(vec![]));
    assert_eq!(
        failed.errors,
        vec!["runtime corpus audit failed: corpus file `btc_calib.csv` is empty".to_string()]
    );
    assert!(failed.warnings.is_empty());
}

#[test]
fn inspection_only_adds_errors() {
    let corpus = report(vec![file("btc_calib.csv", "crypto:binance:BTCUSDT", true, 0)]);
    let mut readiness = RuntimeReadiness::new();
    readiness.warnings.push("kept".to_string());
    inspect_profiles(&corpus, &[], &mut readiness);
    assert_eq!(readiness.warnings, vec!["kept".to_string()]);
    assert_eq!(readiness.errors.len(), 1);
}

#[test]
fn corpus_error_texts() {
    assert_eq!(CorpusError::Io("gone".into()).message(), "I/O error: gone");
    assert_eq!(CorpusError::Csv("bad".into()).message(), "CSV error: bad");
    assert_eq!(
        CorpusError::Resolution("DOGE".into()).message(),
        "catalog instrument `DOGE` cannot be resolved uniquely"
    );
    assert_eq!(CorpusError::Hash("x".into()).message(), "canonical hashing failed: x");
    assert_eq!(CorpusError::Historical("row 2: bad".into()).message(), "row 2: bad");
}

#[test]
fn timeframe_names_parse_in_any_case() {
    assert_eq!(parse_timeframe("d1"), Ok(Timeframe::D1));
    assert_eq!(parse_timeframe("W1"), Ok(Timeframe::W1));
    assert_eq!(parse_timeframe("h4"), Ok(Timeframe::H4));
    assert_eq!(parse_timeframe("m5"), Ok(Timeframe::M5));
    assert_eq!(parse_timeframe("Y1"), Err("unsupported timeframe: Y1".to_string()));
}

use financial_signal::readiness::{corpus_file_warnings, profile_facts_errors};

#[test]
fn warnings_from_a_given_corpus_end() {
    let f = file("xrp_calib.csv", "crypto:binance:XRPUSDT", true, 2);
    assert_eq!(
        corpus_file_warnings(&f, Some(100), 101),
        vec![
            "runtime corpus xrp_calib.csv has 2 cadence anomalies; publication remains gated".to_string(),
            "runtime corpus xrp_calib.csv is historical; native responses are marked STALE_DATA".to_string(),
        ]
    );
    assert_eq!(corpus_file_warnings(&f, Some(101), 101).len(), 1);
    assert_eq!(corpus_file_warnings(&f, None, 101).len(), 1);
}

#[test]
fn profile_errors_from_a_given_corpus_end() {
    let f = file("xrp_calib.csv", "crypto:binance:XRPUSDT", true, 0);
    let p = facts("crypto_binance_XRPUSDT_D1.resolution.json", "crypto:binance:XRPUSDT", Timeframe::D1, 500, true);
    assert!(profile_facts_errors(&p, Some(&f), Some(500)).is_empty());
    assert_eq!(
        profile_facts_errors(&p, Some(&f), Some(499)),
        vec!["profile crypto_binance_XRPUSDT_D1.resolution.json extends beyond serving-corpus coverage".to_string()]
    );
    assert_eq!(
        profile_facts_errors(&p, None, None),
        vec!["profile crypto_binance_XRPUSDT_D1.resolution.json has no serving corpus for crypto:binance:XRPUSDT".to_string()]
    );
}
