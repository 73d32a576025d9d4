use financial_signal::contracts::SessionCalendar;
use financial_signal::corpus::{
    assess_corpus_file, audit_corpus, audit_definitions, audit_file, audit_runtime_corpus,
    corpus_definitions, resolve_instrument, runtime_definitions, seal_audit_report,
    CorpusAuditReport, CorpusDefinition, CorpusError, CorpusFileInput, CorpusFileStatus, CorpusRole,
    CORPUS_AUDIT_SCHEMA,
};
use financial_signal::digest::sha256_text;
use financial_signal::resolver::AssetResolver;

const DAY_NS: i64 = 86_400_000_000_000;
const JAN_1_2026_NS: i64 = 1_767_225_600_000_000_000;

fn definition(rows: usize, start: &'static str, end: &'static str, sha: &'static str) -> CorpusDefinition {
    CorpusDefinition {
        file: "btc_calib.csv",
        query: "BTC",
        role: CorpusRole::Calibration,
        rows,
        start,
        end,
        expected_sha256: sha,
        zero_volume_is_unavailable: false,
    }
}

fn input(bytes: &[u8], raw_rows: usize, days: &[i64], volume_available_rows: usize) -> CorpusFileInput {
    CorpusFileInput {
        bytes: bytes.to_vec(),
        raw_rows,
        open_times: days.iter().map(|day| JAN_1_2026_NS + day * DAY_NS).collect(),
        volume_available_rows,
    }
}

#[test]
fn corpus_table_pins_ten_files() {
    let table = corpus_definitions();
    assert_eq!(table.len(), 10);
    assert_eq!(table[0].file, "btc_calib.csv");
    assert_eq!(table[7].rows, 39_639);
    assert!(table[7].zero_volume_is_unavailable);
    assert_eq!(table[9].end, "2026-02-22");
}

#[test]
fn runtime_audit_uses_only_calibration_files() {
    let runtime = runtime_definitions();
    let files: Vec<&str> = runtime.iter().map(|d| d.file).collect();
    assert_eq!(
        files,
        vec![
            "btc_calib.csv",
            "gold_calib.csv",
            "nasdaq_calib.csv",
            "sp500_calib.csv",
            "xrp_calib.csv"
        ]
    );
    assert!(runtime.iter().all(|d| d.role == CorpusRole::Calibration));
}

#[test]
fn accepted_file_with_exclusions() {
    let bytes = b"Date,Open\n";
    let digest = sha256_text(bytes);
    let sha: &'static str = Box::leak(digest.clone().into_boxed_str());
    let def = definition(3, "2026-01-01", "2026-01-02", sha);
    let btc = match resolve_instrument(&AssetResolver::default(), "BTC") {
        Ok(instrument) => instrument,
        Err(error) => panic!("BTC must resolve: {error:?}"),
    };
    let report = audit_file(&def, &btc, &input(bytes, 3, &[0, 1], 1)).unwrap();
    assert_eq!(report.actual_start, "2026-01-01");
    assert_eq!(report.actual_end, "2026-01-02");
    assert_eq!(report.input_sha256, digest);
    assert_eq!(report.valid_rows, 2);
    assert_eq!(report.malformed_rows_excluded, 1);
    assert_eq!(report.volume_available_rows, 1);
    assert_eq!(report.volume_unavailable_rows, 1);
    assert_eq!(report.cadence_anomalies, 0);
    assert_eq!(report.instrument_id, "crypto:binance:BTCUSDT");
    assert!(report.accepted);
    assert_eq!(report.status, CorpusFileStatus::AcceptedWithExclusions);
}

#[test]
fn byte_drift_rejects_a_file() {
    let def = definition(2, "2026-01-01", "2026-01-03", "sha256:0000");
    let btc = resolve_instrument(&AssetResolver::default(), "btc").unwrap();
    let report = audit_file(&def, &btc, &input(b"x", 2, &[0, 2], 2)).unwrap();
    assert!(!report.accepted);
    assert_eq!(report.status, CorpusFileStatus::Rejected);
    assert_eq!(report.cadence_anomalies, 1);
    assert_eq!(report.malformed_rows_excluded, 0);
}

#[test]
fn file_without_bars_is_empty() {
    let def = definition(0, "2026-01-01", "2026-01-01", "sha256:0");
    let btc = resolve_instrument(&AssetResolver::default(), "BTC").unwrap();
    assert_eq!(
        audit_file(&def, &btc, &input(b"", 1, &[], 0)),
        Err(CorpusError::Empty("btc_calib.csv".to_string()))
    );
}

#[test]
fn unknown_query_is_a_resolution_error() {
    assert_eq!(
        resolve_instrument(&AssetResolver::default(), "DOGE"),
        Err(CorpusError::Resolution("DOGE".to_string()))
    );
}

#[test]
fn assessment_is_exact() {
    let def = definition(10, "2026-01-01", "2026-01-10", "sha256:aa");
    let report = assess_corpus_file(
        &def,
        "id".to_string(),
        10,
        10,
        "2026-01-01".to_string(),
        "2026-01-10".to_string(),
        0,
        4,
        "sha256:aa".to_string(),
    );
    assert!(report.accepted);
    assert_eq!(report.status, CorpusFileStatus::Accepted);
    assert_eq!(report.volume_unavailable_rows, 6);
    let drifted = assess_corpus_file(
        &def,
        "id".to_string(),
        11,
        10,
        "2026-01-01".to_string(),
        "2026-01-10".to_string(),
        0,
        4,
        "sha256:aa".to_string(),
    );
    assert!(!drifted.accepted);
    assert_eq!(drifted.status, CorpusFileStatus::Rejected);
}

#[test]
fn audit_reports_every_file_in_order() {
    let defs = vec![
        definition(1, "2026-01-01", "2026-01-01", "sha256:00"),
        CorpusDefinition {
            file: "gold_calib.csv",
            query: "GOLD",
            ..definition(1, "2026-01-01", "2026-01-01", "sha256:00")
        },
    ];
    let inputs = vec![input(b"a", 1, &[0], 1), input(b"b", 1, &[0], 0)];
    let report = audit_definitions(&AssetResolver::default(), &defs, &inputs).unwrap();
    assert_eq!(report.schema, CORPUS_AUDIT_SCHEMA);
    assert_eq!(report.files.len(), 2);
    assert_eq!(report.files[1].instrument_id, "futures:massive:GC");
    assert!(!report.all_files_accepted);
    assert_eq!(report.report_sha256, None);
    let sealed = seal_audit_report(report.clone(), b"{}");
    assert_eq!(sealed.files, report.files);
    assert_eq!(sealed.report_sha256, Some(sha256_text(b"{}")));
}

#[test]
fn audit_stops_at_the_first_failing_file() {
    let defs = vec![
        definition(1, "2026-01-01", "2026-01-01", "sha256:00"),
        CorpusDefinition {
            file: "doge.csv",
            query: "DOGE",
            ..definition(1, "2026-01-01", "2026-01-01", "sha256:00")
        },
    ];
    let inputs = vec![input(b"", 1, &[], 0), input(b"", 1, &[], 0)];
    assert_eq!(
        audit_definitions(&AssetResolver::default(), &defs, &inputs),
        Err(CorpusError::Empty("btc_calib.csv".to_string()))
    );
    let inputs = vec![input(b"a", 1, &[0], 0), input(b"", 1, &[], 0)];
    assert_eq!(
        audit_definitions(&AssetResolver::default(), &defs, &inputs),
        Err(CorpusError::Resolution("DOGE".to_string()))
    );
}

fn debug_json(report: &CorpusAuditReport) -> Result<Vec<u8>, String> {
    Ok(format!("{report:?}").into_bytes())
}

#[test]
fn runtime_audit_reports_a_failed_serialization() {
    let five: Vec<CorpusFileInput> = (0..5).map(|_| input(b"x", 1, &[0], 0)).collect();
    let failed = audit_runtime_corpus(&five, |_: &CorpusAuditReport| Err("no serializer".to_string()));
    assert_eq!(failed, Err(CorpusError::Hash("no serializer".into())));
    assert_eq!(
        CorpusError::Hash("no serializer".into()).message(),
        "canonical hashing failed: no serializer"
    );
}

#[test]
fn pinned_audits_take_one_input_per_file() {
    let ten: Vec<CorpusFileInput> = (0..10).map(|_| input(b"x", 1, &[0], 0)).collect();
    let report = audit_corpus(&ten, debug_json).unwrap();
    assert_eq!(report.files.len(), 10);
    assert!(!report.all_files_accepted);
    let mut unsealed = report.clone();
    unsealed.report_sha256 = None;
    assert_eq!(report.report_sha256, Some(sha256_text(&debug_json(&unsealed).unwrap())));
    let five: Vec<CorpusFileInput> = (0..5).map(|_| input(b"x", 1, &[0], 0)).collect();
    let runtime = audit_runtime_corpus(&five, debug_json).unwrap();
    assert_eq!(runtime.files.len(), 5);
    let mut unsealed = runtime.clone();
    unsealed.report_sha256 = None;
    assert_eq!(runtime.report_sha256, Some(sha256_text(&debug_json(&unsealed).unwrap())));
    assert!(runtime.files.iter().all(|f| f.role == CorpusRole::Calibration));
    assert_eq!(runtime.files[4].instrument_id, "crypto:binance:XRPUSDT");
    let _ = SessionCalendar::ContinuousUtc;
}
