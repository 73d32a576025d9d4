use financial_signal::corpus::{CorpusError, CorpusFileInput};
use financial_signal::daily_csv::{
    load_daily_csv_with_policy, plan_daily_rows, read_daily_table, trim_text, DailyRowText,
    DailyTable, PriceCheck, VolumeReading,
};
use financial_signal::historical::{HistoricalError, HistoricalLoadPolicy, DAY_NS};

const JAN_1_2026_NS: i64 = 1_767_225_600_000_000_000;

fn price(text: &Option<String>) -> Option<f64> {
    text.as_ref()
        .and_then(|t| t.trim().parse::<f64>().ok())
        .filter(|v| v.is_finite())
}

fn check(row: &DailyRowText) -> PriceCheck {
    let (open, high, low, close) = (price(&row.open), price(&row.high), price(&row.low), price(&row.close));
    let ohlc_ordered = match (open, high, low, close) {
        (Some(o), Some(h), Some(l), Some(c)) => !(l > h || h < o.max(c) || l > o.min(c)),
        _ => false,
    };
    let volume = match row.volume.as_deref().map(|t| t.parse::<f64>()) {
        Some(Ok(v)) if v.is_finite() && v == 0.0 => VolumeReading::Zero,
        Some(Ok(v)) if v.is_finite() => VolumeReading::NonZero,
        _ => VolumeReading::Invalid,
    };
    PriceCheck {
        open_valid: open.is_some(),
        high_valid: high.is_some(),
        low_valid: low.is_some(),
        close_valid: close.is_some(),
        ohlc_ordered,
        volume,
    }
}

fn checks(table: &DailyTable) -> Vec<PriceCheck> {
    table.rows.iter().map(check).collect()
}

fn load(
    bytes: &[u8],
    policy: HistoricalLoadPolicy,
) -> Result<Vec<financial_signal::daily_csv::DailyRowPlan>, HistoricalError> {
    let table = read_daily_table(bytes)?;
    load_daily_csv_with_policy(bytes, &checks(&table), policy)
}

#[test]
fn preserves_missing_volume() {
    let bars = load(b"Date,Open,High,Low,Close\n2026-01-01,10,12,9,11\n", HistoricalLoadPolicy::default()).unwrap();
    assert!(!bars[0].volume_available);
    assert_eq!(bars[0].open_time_ns, JAN_1_2026_NS);
    assert_eq!(bars[0].close_time_ns, JAN_1_2026_NS + DAY_NS);
    assert_eq!(bars[0].row, 2);
}

#[test]
fn rejects_duplicate_dates() {
    assert_eq!(
        load(
            b"Date,Open,High,Low,Close\n2026-01-01,10,12,9,11\n2026-01-01,11,13,10,12\n",
            HistoricalLoadPolicy::default()
        ),
        Err(HistoricalError::NonIncreasing(3))
    );
}

#[test]
fn configured_zero_volume_is_unavailable() {
    let bytes = b"Date,Open,High,Low,Close,Volume\n2026-01-01,10,12,9,11,0\n";
    let bars = load(
        bytes,
        HistoricalLoadPolicy { zero_volume_is_unavailable: true, exclude_malformed_ohlc: false },
    )
    .unwrap();
    assert!(!bars[0].volume_available);
    let kept = load(bytes, HistoricalLoadPolicy::default()).unwrap();
    assert!(kept[0].volume_available);
}

#[test]
fn header_chooses_columns_by_name_in_any_case_and_order() {
    let table = read_daily_table(b" CLOSE ,Vol,Timestamp,low,HIGH,Open\n11, 7 ,2026/01/02,9,12,10\n").unwrap();
    assert_eq!(
        table.rows,
        vec![DailyRowText {
            date: Some("2026/01/02".into()),
            open: Some("10".into()),
            high: Some("12".into()),
            low: Some("9".into()),
            close: Some("11".into()),
            volume: Some("7".into()),
        }]
    );
    assert_eq!(table.error, None);
    assert_eq!(
        read_daily_table(b"Date,Open,High,Close\n"),
        Err(HistoricalError::MissingColumn("low".into()))
    );
    assert_eq!(read_daily_table(b""), Err(HistoricalError::MissingColumn("date".into())));
}

#[test]
fn three_date_formats_are_read() {
    let bytes = b"date,open,high,low,close\n2026-01-01,1,1,1,1\n2026/01/02,1,1,1,1\n03/01/2026,1,1,1,1\n";
    let bars = load(bytes, HistoricalLoadPolicy::default()).unwrap();
    let opens: Vec<i64> = bars.iter().map(|bar| bar.open_time_ns).collect();
    assert_eq!(opens, vec![JAN_1_2026_NS, JAN_1_2026_NS + DAY_NS, JAN_1_2026_NS + 2 * DAY_NS]);
}

#[test]
fn invalid_values_name_their_row_and_field() {
    assert_eq!(
        load(b"Date,Open,High,Low,Close\n2026-13-01,10,12,9,11\n", HistoricalLoadPolicy::default()),
        Err(HistoricalError::InvalidValue { row: 2, field: "date".into(), value: "2026-13-01".into() })
    );
    assert_eq!(
        load(b"Date,Open,High,Low,Close\n2026-01-01,10,x,9,11\n", HistoricalLoadPolicy::default()),
        Err(HistoricalError::InvalidValue { row: 2, field: "high".into(), value: "x".into() })
    );
    assert_eq!(
        load(b"Date,Open,High,Low,Close\n2026-01-01,10,12\n", HistoricalLoadPolicy::default()),
        Err(HistoricalError::InvalidValue { row: 2, field: "low".into(), value: String::new() })
    );
    let error = HistoricalError::InvalidValue { row: 2, field: "high".into(), value: "x".into() };
    assert_eq!(error.message(), "row 2: invalid high value `x`");
    assert_eq!(
        HistoricalError::NonIncreasing(3).message(),
        "timestamps must be strictly increasing; failure at row 3"
    );
}

#[test]
fn malformed_rows_are_skipped_or_refused_by_policy() {
    let bytes = b"Date,Open,High,Low,Close\n2026-01-01,10,8,9,11\n2026-01-02,10,12,9,11\n";
    let kept = load(
        bytes,
        HistoricalLoadPolicy { zero_volume_is_unavailable: false, exclude_malformed_ohlc: true },
    )
    .unwrap();
    assert_eq!(kept.len(), 1);
    assert_eq!(kept[0].row, 3);
    assert_eq!(
        load(bytes, HistoricalLoadPolicy::default()),
        Err(HistoricalError::InvalidObservation { row: 2, message: "OHLC ordering is malformed".into() })
    );
}

#[test]
fn plan_uses_the_checks_it_is_given() {
    let table = read_daily_table(b"Date,Open,High,Low,Close\n2026-01-01,10,12,9,11\n").unwrap();
    let mut refused = checks(&table);
    refused[0].close_valid = false;
    assert_eq!(
        plan_daily_rows(&table, &refused, HistoricalLoadPolicy::default()),
        Err(HistoricalError::InvalidValue { row: 2, field: "close".into(), value: "11".into() })
    );
    assert_eq!(
        load_daily_csv_with_policy(b"Date,Open,High,Low,Close\n", &refused, HistoricalLoadPolicy::default()),
        Err(HistoricalError::Csv("price checks do not match the CSV records".into()))
    );
}

#[test]
fn trim_removes_unicode_white_space() {
    assert_eq!(trim_text(" \t2026-01-01\u{a0}\n"), "2026-01-01");
    assert_eq!(trim_text("   "), "");
}

#[test]
fn corpus_input_is_read_from_the_bytes() {
    let bytes = b"Date,Open,High,Low,Close,Volume\n2026-01-01,10,12,9,11,5\n2026-01-02,10,8,9,11,5\n2026-01-03,10,12,9,11,0\n".to_vec();
    let table = read_daily_table(&bytes).unwrap();
    let input = CorpusFileInput::read(bytes.clone(), &checks(&table), true).unwrap();
    assert_eq!(input.bytes, bytes);
    assert_eq!(input.raw_rows, 3);
    assert_eq!(input.open_times, vec![JAN_1_2026_NS, JAN_1_2026_NS + 2 * DAY_NS]);
    assert_eq!(input.volume_available_rows, 1);

    let ragged = b"Date,Open,High,Low,Close\n2026-01-01,10,12,9,11,5\n".to_vec();
    let table = read_daily_table(&ragged).unwrap();
    assert!(matches!(
        CorpusFileInput::read(ragged, &checks(&table), false),
        Err(CorpusError::Csv(_))
    ));
}
