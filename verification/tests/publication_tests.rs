use financial_signal::calibration::{check_publication_coherence, PublicationPolicy};
use financial_signal::digest::sha256_text;

fn policy(selected: &str, evaluated: &str, eligible: bool, hash: Option<String>) -> PublicationPolicy {
    PublicationPolicy {
        minimum_direction_edge_bp: 2065,
        minimum_reliability_bp: 9500,
        parameters_selected_on: selected.into(),
        reliability_evaluated_on: evaluated.into(),
        test_outcomes_used_for_parameter_selection: false,
        requires_positive_brier_skill: true,
        profile_eligible_for_publication: eligible,
        preregistered_protocol_sha256: hash,
    }
}

#[test]
fn temporal_profile_with_protocol_hash_stays_unpublished() {
    let hash = Some(sha256_text(b"protocol"));
    let kept = policy("TEMPORAL_VALIDATION", "CONSUMED_DEVELOPMENT_AUDIT", false, hash.clone());
    assert!(check_publication_coherence(&kept, false, "DEVELOPMENT_AUDIT_CONSUMED", 9500, 9000, 8000));
    let promoted = policy("TEMPORAL_VALIDATION", "UNTOUCHED_TEMPORAL_TEST", true, hash);
    assert!(!check_publication_coherence(&promoted, true, "PREREGISTERED_UNTOUCHED_TEST", 9500, 9000, 8000));
}

#[test]
fn preregistered_profile_awaits_evidence() {
    let waiting = policy(
        "PREREGISTERED_PROTOCOL",
        "PREREGISTERED_AWAITING_PROSPECTIVE_EVIDENCE",
        false,
        Some(sha256_text(b"protocol")),
    );
    assert!(check_publication_coherence(
        &waiting,
        false,
        "PREREGISTERED_AWAITING_PROSPECTIVE_EVIDENCE",
        9500,
        10000,
        9500
    ));
    let published = policy("PREREGISTERED_PROTOCOL", "UNTOUCHED_TEMPORAL_TEST", true, None);
    assert!(check_publication_coherence(&published, true, "PREREGISTERED_UNTOUCHED_TEST", 9500, 9000, 8000));
    assert!(!check_publication_coherence(&published, false, "PREREGISTERED_UNTOUCHED_TEST", 9500, 9000, 8000));
}

#[test]
fn incoherent_fields_are_rejected() {
    let base = policy("TEMPORAL_VALIDATION", "CONSUMED_DEVELOPMENT_AUDIT", false, None);
    assert!(check_publication_coherence(&base, false, "DEVELOPMENT_AUDIT_CONSUMED", 9500, 9000, 8000));
    assert!(!check_publication_coherence(&base, false, "DEVELOPMENT_AUDIT_CONSUMED", 9000, 9000, 8000));
    assert!(!check_publication_coherence(&base, false, "DEVELOPMENT_AUDIT_CONSUMED", 9500, 7000, 8000));
    assert!(!check_publication_coherence(&base, false, "PREREGISTERED_UNTOUCHED_TEST", 9500, 9000, 8000));
    let mut leaked = base.clone();
    leaked.test_outcomes_used_for_parameter_selection = true;
    assert!(!check_publication_coherence(&leaked, false, "DEVELOPMENT_AUDIT_CONSUMED", 9500, 9000, 8000));
    let unknown = policy("TEST_SET", "CONSUMED_DEVELOPMENT_AUDIT", false, None);
    assert!(!check_publication_coherence(&unknown, false, "DEVELOPMENT_AUDIT_CONSUMED", 9500, 9000, 8000));
}

use financial_signal::calibration::{publish_resolution, VoteSummary};
use financial_signal::contracts::{CalibrationScope, Direction, Horizon, ProbabilitiesBp};

fn vote(edge_bp: u16) -> VoteSummary {
    VoteSummary {
        probabilities: ProbabilitiesBp {
            up: 6000,
            range: 2000,
            down: 2000,
        },
        support: 12,
        winning: Direction::Up,
        edge_bp,
    }
}

fn eligible() -> PublicationPolicy {
    policy("PREREGISTERED_PROTOCOL", "UNTOUCHED_TEMPORAL_TEST", true, None)
}

#[test]
fn publication_gates_in_order() {
    let horizon = Some(Horizon {
        p25_bars: Some(2),
        median_bars: Some(4),
        p75_bars: Some(6),
        p25_seconds: None,
        median_seconds: None,
        p75_seconds: None,
    });
    let published = publish_resolution(
        &eligible(),
        CalibrationScope::Instrument,
        "sha256:p".into(),
        Some(vote(4000)),
        Some(9600),
        9000,
        false,
        horizon,
    );
    assert_eq!(published.direction, Direction::Up);
    assert_eq!(published.reliability_bp, Some(9600));
    assert_eq!(published.sample_support, 12);
    assert_eq!(published.horizon, horizon);
    assert_eq!(published.publication_reason, "CALIBRATED_EVIDENCE_SATISFIED");

    let none = publish_resolution(&eligible(), CalibrationScope::Instrument, "h".into(), None, None, 0, false, None);
    assert_eq!(none.direction, Direction::Unresolved);
    assert_eq!(none.sample_support, 0);
    assert_eq!(none.publication_reason, "INSUFFICIENT_MATCHED_SUPPORT");

    let waiting = policy("PREREGISTERED_PROTOCOL", "PREREGISTERED_AWAITING_PROSPECTIVE_EVIDENCE", false, None);
    let r = publish_resolution(&waiting, CalibrationScope::Instrument, "h".into(), Some(vote(4000)), Some(9600), 9000, false, None);
    assert_eq!(r.publication_reason, "PREREGISTERED_AWAITING_PROSPECTIVE_EVIDENCE");
    assert_eq!(r.sample_support, 12);
    let temporal = policy("TEMPORAL_VALIDATION", "CONSUMED_DEVELOPMENT_AUDIT", false, None);
    let r = publish_resolution(&temporal, CalibrationScope::Instrument, "h".into(), Some(vote(4000)), Some(9600), 9000, false, None);
    assert_eq!(r.publication_reason, "CALIBRATION_EVIDENCE_NOT_PREREGISTERED");

    let r = publish_resolution(&eligible(), CalibrationScope::Instrument, "h".into(), Some(vote(4000)), Some(9600), 9000, true, None);
    assert_eq!(r.publication_reason, "HELD_OUT_PROBABILITY_SKILL_NOT_POSITIVE");
    let r = publish_resolution(&eligible(), CalibrationScope::Instrument, "h".into(), Some(vote(2000)), Some(9600), 9000, false, None);
    assert_eq!(r.publication_reason, "CALIBRATED_DIRECTION_EDGE_NOT_MET");
    let r = publish_resolution(&eligible(), CalibrationScope::Instrument, "h".into(), Some(vote(4000)), None, 9000, false, None);
    assert_eq!(r.publication_reason, "HELD_OUT_RELIABILITY_NOT_MET");
    assert_eq!(r.direction, Direction::Unresolved);
}
