use financial_signal::contracts::Timeframe;
use financial_signal::historical::{
    check_weekly_input, closed_week_runs, intraday_batch_size, plan_weekly_aggregation,
    DailyBarHeader, HistoricalError, DAY_NS,
};

const MONDAY_JAN_5_2026_NS: i64 = 1_767_571_200_000_000_000;

fn day_of_january(day: i64) -> i64 {
    MONDAY_JAN_5_2026_NS + (day - 5) * DAY_NS
}

fn daily(days: impl IntoIterator<Item = i64>, source: &str) -> Vec<DailyBarHeader> {
    days.into_iter()
        .map(|day| DailyBarHeader {
            instrument_id: "crypto:binance:BTCUSDT".into(),
            source: source.into(),
            timeframe: Timeframe::D1,
            is_closed: true,
            open_time_ns: day_of_january(day),
            close_time_ns: day_of_january(day) + DAY_NS,
        })
        .collect()
}

#[test]
fn weekly_aggregation_omits_an_in_progress_trailing_week() {
    let bars = daily(5..=14, "test");
    let weekly = plan_weekly_aggregation(&bars).unwrap();
    assert_eq!(weekly.len(), 1);
    assert_eq!(bars[weekly[0].0].open_time_ns, day_of_january(5));
    assert_eq!(weekly[0], (0, 7));
}

#[test]
fn weekly_aggregation_does_not_close_a_partial_only_week() {
    let bars = daily([5, 6], "test");
    assert!(plan_weekly_aggregation(&bars).unwrap().is_empty());
}

#[test]
fn weekly_aggregation_keeps_a_closed_holiday_shortened_week() {
    let bars = daily([6, 7, 8, 9, 12], "test");
    let weekly = plan_weekly_aggregation(&bars).unwrap();
    assert_eq!(weekly.len(), 1);
    assert_eq!(bars[weekly[0].0].open_time_ns, day_of_january(6));
}

#[test]
fn weekly_aggregation_accepts_binance_inclusive_close_timestamp() {
    let mut bars = daily(5..=11, "binance_spot");
    for bar in &mut bars {
        bar.close_time_ns = bar.close_time_ns.saturating_sub(1_000_000);
    }
    let weekly = plan_weekly_aggregation(&bars).unwrap();
    assert_eq!(weekly.len(), 1);
    let next_week_start = day_of_january(12);
    assert_eq!(bars[weekly[0].1 - 1].close_time_ns, next_week_start - 1_000_000);
}

#[test]
fn weekly_aggregation_rejects_mixed_authority() {
    let mut bars = daily([5, 6], "source-a");
    bars[1].source = "source-b".into();
    assert!(matches!(
        plan_weekly_aggregation(&bars),
        Err(HistoricalError::InvalidObservation { message, .. })
            if message.contains("authority")
    ));
}

#[test]
fn weekly_input_faults_by_row() {
    assert_eq!(check_weekly_input(&[]), Err(HistoricalError::EmptyAggregation));
    let mut open = daily([5, 6, 7], "test");
    open[1].is_closed = false;
    assert_eq!(
        check_weekly_input(&open),
        Err(HistoricalError::InvalidObservation {
            row: 2,
            message: "weekly aggregation requires closed D1 bars".into(),
        })
    );
    let repeated = daily([5, 6, 6], "test");
    assert_eq!(check_weekly_input(&repeated), Err(HistoricalError::NonIncreasing(3)));
    assert_eq!(check_weekly_input(&daily([5, 6, 7], "test")), Ok(()));
}

#[test]
fn runs_follow_the_given_weeks() {
    let bars = daily([5, 6, 12, 13, 19], "test");
    let weeks = [(2026, 2), (2026, 2), (2026, 3), (2026, 3), (2026, 4)];
    assert_eq!(closed_week_runs(&bars, &weeks), vec![(0, 2), (2, 4)]);
}

#[test]
fn intraday_batches() {
    let m1 = vec![(Timeframe::M1, true); 7];
    assert_eq!(intraday_batch_size(&m1, Timeframe::M5), Ok(5));
    assert_eq!(intraday_batch_size(&m1, Timeframe::H1), Ok(60));
    let m5 = vec![(Timeframe::M5, true); 3];
    assert_eq!(intraday_batch_size(&m5, Timeframe::H1), Ok(12));
    assert_eq!(
        intraday_batch_size(&m5, Timeframe::M5),
        Err(HistoricalError::InvalidObservation {
            row: 0,
            message: "all input bars must be closed M1 bars".into(),
        })
    );
    let h1 = vec![(Timeframe::H1, true), (Timeframe::H1, false)];
    assert_eq!(
        intraday_batch_size(&h1, Timeframe::H4),
        Err(HistoricalError::InvalidObservation {
            row: 0,
            message: "all input bars must be closed H1 bars".into(),
        })
    );
    assert_eq!(
        intraday_batch_size(&h1, Timeframe::H1),
        Err(HistoricalError::InvalidObservation {
            row: 0,
            message: "H1 aggregation requires M1 or M5 input bars".into(),
        })
    );
    let mixed = vec![(Timeframe::M1, true), (Timeframe::M5, true)];
    assert_eq!(
        intraday_batch_size(&mixed, Timeframe::H1),
        Err(HistoricalError::InvalidObservation {
            row: 0,
            message: "all input bars must be closed and same timeframe".into(),
        })
    );
    assert_eq!(intraday_batch_size(&[], Timeframe::H4), Err(HistoricalError::EmptyAggregation));
}
