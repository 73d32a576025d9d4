use financial_signal::calibration::{
    development_audit_runtime_parity, first_passage_state, label_window, resolved_label,
    AuditOutcome, OutcomeLabelState,
};
use financial_signal::contracts::Direction;
use financial_signal::dynamics::{latest_prior_week_index, latest_strictly_prior_week};

#[test]
fn incomplete_no_hit_is_censored_but_observed_first_passage_is_labelable() {
    // Four bars, a horizon of ten: the window of bar 0 stops at bar 3.
    assert_eq!(label_window(0, 4, 10), Some((3, 10)));
    let censored = first_passage_state(&[(false, false), (false, false), (false, false)], false, 10);
    assert_eq!(censored, OutcomeLabelState::RightCensored { observed_future_bars: 3 });
    assert_eq!(resolved_label(censored), None);
    let observed = first_passage_state(&[(false, false), (true, false)], false, 10);
    assert_eq!(observed, OutcomeLabelState::Resolved(Direction::Up, 2));
    assert_eq!(resolved_label(observed), Some((Direction::Up, 2)));
}

#[test]
fn first_passage_rules() {
    assert_eq!(
        first_passage_state(&[(false, true), (true, false)], true, 5),
        OutcomeLabelState::Resolved(Direction::Down, 1)
    );
    assert_eq!(
        first_passage_state(&[(false, false), (true, true)], true, 5),
        OutcomeLabelState::Resolved(Direction::Range, 2)
    );
    assert_eq!(
        first_passage_state(&[(false, false); 5], true, 5),
        OutcomeLabelState::Resolved(Direction::Range, 5)
    );
}

#[test]
fn label_windows() {
    assert_eq!(label_window(3, 4, 10), None);
    assert_eq!(label_window(0, 0, 10), None);
    assert_eq!(label_window(2, 100, 10), Some((12, 12)));
    assert_eq!(label_window(usize::MAX, 100, 1), None);
}

fn outcome(ts: i64, actual: Direction, winning: Option<Direction>, admissible: usize) -> AuditOutcome {
    AuditOutcome {
        query_timestamp_ns: ts,
        actual,
        winning,
        admissible_neighbors: admissible,
    }
}

#[test]
fn runtime_parity_tallies() {
    let outcomes = vec![
        outcome(1, Direction::Up, Some(Direction::Up), 9),
        outcome(2, Direction::Down, Some(Direction::Up), 9),
        outcome(3, Direction::Range, None, 12),
        outcome(4, Direction::Down, None, 2),
    ];
    let parity = development_audit_runtime_parity(&outcomes, 5, 3);
    assert_eq!(parity.audit_observations, 4);
    assert_eq!(parity.resolved_observations, 2);
    assert_eq!(parity.unresolved_observations, 2);
    assert_eq!(parity.resolved_actual_direction_counts.up, 1);
    assert_eq!(parity.resolved_actual_direction_counts.down, 1);
    assert_eq!(parity.resolved_predicted_direction_counts.up, 2);
    assert_eq!(parity.unresolved_actual_direction_counts.range, 1);
    assert_eq!(parity.unresolved_actual_direction_counts.down, 1);
    assert_eq!(parity.resolved_only_confusion_matrix.down.up, 1);
    assert_eq!(parity.resolved_only_confusion_matrix.up.up, 1);
    assert_eq!(parity.unresolved_queries.len(), 2);
    assert_eq!(parity.unresolved_queries[0].selected_neighbor_count, 5);
    assert_eq!(parity.unresolved_queries[1].selected_neighbor_count, 2);
    assert_eq!(parity.unresolved_queries[1].runtime_minimum_support, 3);
    assert_eq!(parity.unresolved_queries[1].query_timestamp_ns, 4);
}

const THU_JAN_1_2026_NS: i64 = 1_767_225_600_000_000_000;
const DAY_NS: i64 = 86_400_000_000_000;

#[test]
fn weekly_frame_must_be_from_an_earlier_week() {
    let weekly = [
        THU_JAN_1_2026_NS - 14 * DAY_NS,
        THU_JAN_1_2026_NS - 7 * DAY_NS,
        THU_JAN_1_2026_NS - 2 * DAY_NS,
    ];
    assert_eq!(latest_strictly_prior_week(THU_JAN_1_2026_NS, &weekly), Some(1));
    assert_eq!(latest_strictly_prior_week(THU_JAN_1_2026_NS + 5 * DAY_NS, &weekly), Some(2));
    assert_eq!(latest_strictly_prior_week(THU_JAN_1_2026_NS - 14 * DAY_NS, &weekly), None);
    assert_eq!(latest_prior_week_index((2026, 1), &[(2025, 52), (2026, 1), (2025, 50)]), Some(2));
    assert_eq!(latest_prior_week_index((2026, 1), &[]), None);
}

use financial_signal::calibration::causal_library_positions;

#[test]
fn walk_forward_library_excludes_self_and_future() {
    // (observation time, label maturity time)
    let candidates = [(10, 20), (15, 40), (30, 35), (5, 29), (29, 29)];
    assert_eq!(causal_library_positions(&candidates, 30), vec![0, 3, 4]);
    assert_eq!(causal_library_positions(&candidates, 10), Vec::<usize>::new());
    assert_eq!(causal_library_positions(&candidates, 100), vec![0, 1, 2, 3, 4]);
}

use financial_signal::dynamics::{validate_frames, DynamicsError, FrameShape};

fn shape(ts: i64, d: usize) -> FrameShape {
    FrameShape {
        timestamp_ns: ts,
        names: d,
        values: d,
        availability_mask: d,
    }
}

#[test]
fn frame_series_checks() {
    assert_eq!(validate_frames(&[]), Err(DynamicsError::Empty));
    assert_eq!(validate_frames(&[shape(1, 3), shape(2, 3)]), Ok(()));
    assert_eq!(
        validate_frames(&[shape(2, 3), shape(2, 3)]),
        Err(DynamicsError::NonIncreasingTimestamps)
    );
    let mut odd = shape(3, 3);
    odd.availability_mask = 2;
    assert_eq!(
        validate_frames(&[shape(1, 3), shape(2, 3), odd]),
        Err(DynamicsError::DimensionMismatch)
    );
}
