use financial_signal::contracts::SessionCalendar;
use financial_signal::historical::{
    cadence_anomalies, iso_week_start_ns, weekly_bucket_is_closed, CadenceAnomaly, CadencePolicy,
    HistoricalLoadPolicy, DAY_NS,
};

const JAN_1_2026_NS: i64 = 1_767_225_600_000_000_000;
const MONDAY_JAN_5_2026_NS: i64 = 1_767_571_200_000_000_000;

#[test]
fn continuous_calendar_reports_gaps() {
    let open_times = [JAN_1_2026_NS, JAN_1_2026_NS + 2 * DAY_NS];
    assert_eq!(
        cadence_anomalies(&open_times, CadencePolicy::daily(SessionCalendar::ContinuousUtc)).len(),
        1
    );
}

#[test]
fn exchange_sessions_tolerate_weekends() {
    let policy = CadencePolicy::daily(SessionCalendar::ExchangeSession);
    assert_eq!(policy.minimum_gap_ns, DAY_NS);
    assert_eq!(policy.maximum_gap_ns, 4 * DAY_NS);
    let open_times = [
        JAN_1_2026_NS,
        JAN_1_2026_NS + DAY_NS,
        JAN_1_2026_NS + 4 * DAY_NS,
        JAN_1_2026_NS + 9 * DAY_NS,
    ];
    assert_eq!(
        cadence_anomalies(&open_times, policy),
        vec![CadenceAnomaly {
            previous_open_time_ns: JAN_1_2026_NS + 4 * DAY_NS,
            current_open_time_ns: JAN_1_2026_NS + 9 * DAY_NS,
            gap_ns: 5 * DAY_NS,
        }]
    );
}

#[test]
fn duplicate_and_short_gaps_are_anomalies() {
    let policy = CadencePolicy::daily(SessionCalendar::ContinuousUtc);
    let anomalies = cadence_anomalies(&[10, 10, 20], policy);
    assert_eq!(anomalies.len(), 2);
    assert_eq!(anomalies[0].gap_ns, 0);
    assert!(cadence_anomalies(&[], policy).is_empty());
    assert!(cadence_anomalies(&[5], policy).is_empty());
}

#[test]
fn iso_week_starts_on_monday() {
    assert_eq!(iso_week_start_ns(JAN_1_2026_NS), Some(JAN_1_2026_NS - 3 * DAY_NS));
    assert_eq!(iso_week_start_ns(MONDAY_JAN_5_2026_NS), Some(MONDAY_JAN_5_2026_NS));
    assert_eq!(
        iso_week_start_ns(MONDAY_JAN_5_2026_NS + 6 * DAY_NS + 1),
        Some(MONDAY_JAN_5_2026_NS)
    );
    assert_eq!(iso_week_start_ns(0), Some(-3 * DAY_NS));
    assert_eq!(iso_week_start_ns(-1), Some(-3 * DAY_NS));
    assert_eq!(iso_week_start_ns(i64::MIN), None);
}

#[test]
fn weekly_bucket_closure() {
    let monday = MONDAY_JAN_5_2026_NS;
    let full_week: Vec<(i64, i64)> = (0..7)
        .map(|d| (monday + d * DAY_NS, monday + (d + 1) * DAY_NS))
        .collect();
    assert!(weekly_bucket_is_closed(&full_week, false));
    let partial = &full_week[..2];
    assert!(!weekly_bucket_is_closed(partial, false));
    assert!(weekly_bucket_is_closed(partial, true));
    assert!(!weekly_bucket_is_closed(&[], true));
    let inclusive_close = [(monday + 6 * DAY_NS, monday + 7 * DAY_NS - 1_000_000)];
    assert!(weekly_bucket_is_closed(&inclusive_close, false));
    let early_close = [(monday + 6 * DAY_NS, monday + 7 * DAY_NS - 1_000_001)];
    assert!(!weekly_bucket_is_closed(&early_close, false));
}

#[test]
fn default_load_policy_keeps_everything() {
    let policy = HistoricalLoadPolicy::default();
    assert!(!policy.zero_volume_is_unavailable);
    assert!(!policy.exclude_malformed_ohlc);
}
