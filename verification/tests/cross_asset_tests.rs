use financial_signal::cross_asset::{
    align_frames_by_timestamp, compute_state_agreement, AlignmentConfig, FrameReading,
};

fn make_test_frame(ts: i64, state: &str) -> FrameReading {
    FrameReading {
        timestamp_ns: ts,
        valid: true,
        state: state.into(),
    }
}

#[test]
fn test_align_frames_by_timestamp() {
    let primary = vec![
        make_test_frame(1000, "UP"),
        make_test_frame(2000, "UP"),
        make_test_frame(3000, "DOWN"),
    ];
    let reference = vec![
        make_test_frame(1000, "UP"),
        make_test_frame(2000, "UP"),
        make_test_frame(3000, "DOWN"),
    ];

    let config = AlignmentConfig::default();
    let aligned = align_frames_by_timestamp(&primary, &reference, config.max_temporal_gap_ns);

    assert_eq!(aligned.len(), 3);
    assert_eq!(aligned[0].0.timestamp_ns, 1000);
    assert_eq!(aligned[1].0.timestamp_ns, 2000);
    assert_eq!(aligned[2].0.timestamp_ns, 3000);
}

#[test]
fn test_align_frames_with_gaps() {
    let primary = vec![
        make_test_frame(1000, "UP"),
        make_test_frame(2000, "UP"),
        make_test_frame(100000000000000, "DOWN"),
    ];
    let reference = vec![
        make_test_frame(1000, "UP"),
        make_test_frame(3000, "UP"),
        make_test_frame(100000000000000, "DOWN"),
    ];

    let config = AlignmentConfig::default();
    let aligned = align_frames_by_timestamp(&primary, &reference, config.max_temporal_gap_ns);

    assert_eq!(aligned.len(), 3);
}

#[test]
fn test_state_agreement_aligned() {
    let primary = vec![make_test_frame(1000, "UP"), make_test_frame(2000, "UP")];
    let reference = vec![make_test_frame(1000, "UP"), make_test_frame(2000, "UP")];
    let aligned: Vec<_> = primary.into_iter().zip(reference).collect();

    let agreement = compute_state_agreement(&aligned);
    assert_eq!(agreement, "ALIGNED");
}

#[test]
fn test_state_agreement_diverging() {
    let primary = vec![make_test_frame(1000, "UP"), make_test_frame(2000, "UP")];
    let reference = vec![make_test_frame(1000, "DOWN"), make_test_frame(2000, "DOWN")];
    let aligned: Vec<_> = primary.into_iter().zip(reference).collect();

    let agreement = compute_state_agreement(&aligned);
    assert_eq!(agreement, "DIVERGING");
}

#[test]
fn frames_too_far_apart_are_skipped() {
    let primary = vec![make_test_frame(0, "UP"), make_test_frame(100, "UP")];
    let reference = vec![make_test_frame(50, "UP"), make_test_frame(101, "DOWN")];
    let aligned = align_frames_by_timestamp(&primary, &reference, 10);
    assert_eq!(aligned.len(), 1);
    assert_eq!(aligned[0].0.timestamp_ns, 100);
    assert_eq!(aligned[0].1.timestamp_ns, 101);
    assert!(align_frames_by_timestamp(&[], &reference, 10).is_empty());
}

#[test]
fn invalid_frames_do_not_vote() {
    let mut invalid = make_test_frame(1000, "UP");
    invalid.valid = false;
    let pairs = vec![(invalid.clone(), make_test_frame(1000, "DOWN"))];
    assert_eq!(compute_state_agreement(&pairs), "UNAVAILABLE");
    assert_eq!(compute_state_agreement(&[]), "UNAVAILABLE");
    let tie = vec![
        (make_test_frame(1, "UP"), make_test_frame(1, "UP")),
        (make_test_frame(2, "UP"), make_test_frame(2, "DOWN")),
        (invalid, make_test_frame(3, "UP")),
    ];
    assert_eq!(compute_state_agreement(&tie), "DIVERGING");
}

#[test]
fn default_alignment_is_one_day() {
    let config = AlignmentConfig::default();
    assert_eq!(config.min_aligned_observations, 30);
    assert_eq!(config.max_temporal_gap_ns, 86_400_000_000_000);
}
