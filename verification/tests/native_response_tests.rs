use financial_signal::calibration::DirectionalResolution;
use financial_signal::contracts::{CalibrationScope, Direction, Horizon, ProbabilitiesBp};
use financial_signal::native_response::{
    data_watermark, summarize_resolution_profiles, CalibrationStatus, HorizonStatus,
    NativeCalibration, NativeHorizon,
};

fn resolution(reason: &str) -> DirectionalResolution {
    DirectionalResolution {
        direction: Direction::Up,
        probabilities_bp: Some(ProbabilitiesBp {
            up: 4000,
            range: 3000,
            down: 3000,
        }),
        horizon: Some(Horizon {
            p25_bars: Some(5),
            median_bars: Some(10),
            p75_bars: Some(20),
            p25_seconds: None,
            median_seconds: None,
            p75_seconds: None,
        }),
        reliability_bp: Some(8000),
        sample_support: 15,
        calibration_scope: CalibrationScope::Instrument,
        profile_sha256: "sha256:abc123".into(),
        publication_reason: reason.into(),
    }
}

#[test]
fn test_native_calibration_from_resolution() {
    let resolution = resolution("CALIBRATED_EVIDENCE_SATISFIED");
    let cal = NativeCalibration::from_resolution(&resolution);
    assert!(cal.calibrated);
    assert_eq!(cal.status, CalibrationStatus::Available);
    assert_eq!(cal.probabilities_bp.unwrap().up, 4000);
    assert_eq!(cal.reliability_bp.unwrap(), 8000);
    assert_eq!(cal.sample_support, 15);
}

#[test]
fn test_native_calibration_unavailable() {
    let cal = NativeCalibration::unavailable(
        CalibrationScope::Instrument,
        CalibrationStatus::InsufficientMatchedSupport,
        Some("sha256:xyz".into()),
    );
    assert!(!cal.calibrated);
    assert_eq!(cal.status, CalibrationStatus::InsufficientMatchedSupport);
    assert!(cal.probabilities_bp.is_none());
    assert!(cal.reliability_bp.is_none());
    assert_eq!(cal.sample_support, 0);
}

#[test]
fn test_native_horizon_available() {
    let horizon = Horizon {
        p25_bars: Some(5),
        median_bars: Some(10),
        p75_bars: Some(20),
        p25_seconds: Some(432000),
        median_seconds: Some(864000),
        p75_seconds: Some(1728000),
    };
    let native = NativeHorizon::from_horizon(&horizon);
    assert_eq!(native.status, HorizonStatus::Available);
    assert_eq!(native.p25_bars, Some(5));
    assert_eq!(native.median_bars, Some(10));
    assert_eq!(native.p75_bars, Some(20));
}

#[test]
fn test_native_horizon_unavailable() {
    let native = NativeHorizon::unavailable();
    assert_eq!(native.status, HorizonStatus::Unavailable);
    assert!(native.p25_bars.is_none());
    assert!(native.median_bars.is_none());
    assert!(native.p75_bars.is_none());
}

#[test]
fn test_probabilities_bp_validation() {
    let prob = ProbabilitiesBp {
        up: 4000,
        range: 3000,
        down: 3000,
    };
    assert!(prob.validate().is_ok());

    let prob = ProbabilitiesBp {
        up: 4000,
        range: 3000,
        down: 2999,
    };
    assert!(prob.validate().is_err());
}

#[test]
fn unresolved_calibration_reads_its_reason() {
    let cal = NativeCalibration::from_unresolved(&resolution("INSUFFICIENT_MATCHED_SUPPORT"));
    assert!(!cal.calibrated);
    assert_eq!(cal.status, CalibrationStatus::InsufficientMatchedSupport);
    assert_eq!(cal.sample_support, 15);
    assert_eq!(cal.profile_sha256.as_deref(), Some("sha256:abc123"));
    let cal = NativeCalibration::from_unresolved(&resolution("SOMETHING_ELSE"));
    assert_eq!(cal.status, CalibrationStatus::Unavailable);
}

#[test]
fn calibration_status_from_every_reason() {
    let cases = [
        ("CALIBRATED_EVIDENCE_SATISFIED", CalibrationStatus::Available),
        ("INSUFFICIENT_MATCHED_SUPPORT", CalibrationStatus::InsufficientMatchedSupport),
        (
            "HELD_OUT_PROBABILITY_SKILL_NOT_POSITIVE",
            CalibrationStatus::HeldOutProbabilitySkillNotPositive,
        ),
        ("HELD_OUT_RELIABILITY_NOT_MET", CalibrationStatus::HeldOutReliabilityNotMet),
        (
            "CALIBRATED_DIRECTION_EDGE_NOT_MET",
            CalibrationStatus::CalibratedDirectionEdgeNotMet,
        ),
        (
            "CALIBRATION_EVIDENCE_NOT_PREREGISTERED",
            CalibrationStatus::CalibrationEvidenceNotPreregistered,
        ),
        ("anything", CalibrationStatus::Unavailable),
    ];
    for (reason, status) in cases {
        assert_eq!(CalibrationStatus::from_reason(reason), status);
    }
}

#[test]
fn one_profile_gives_version_and_digest() {
    let profiles = vec![("v1".to_string(), "sha256:a".to_string())];
    let (version, digest) = summarize_resolution_profiles(&profiles);
    assert_eq!(version.as_deref(), Some("v1"));
    assert_eq!(digest.as_deref(), Some("sha256:a"));
}

#[test]
fn shared_version_without_single_digest() {
    let profiles = vec![
        ("v1".to_string(), "sha256:a".to_string()),
        ("v1".to_string(), "sha256:b".to_string()),
    ];
    let (version, digest) = summarize_resolution_profiles(&profiles);
    assert_eq!(version.as_deref(), Some("v1"));
    assert_eq!(digest, None);
    let mixed = vec![
        ("v1".to_string(), "sha256:a".to_string()),
        ("v2".to_string(), "sha256:b".to_string()),
    ];
    assert_eq!(summarize_resolution_profiles(&mixed), (None, None));
    assert_eq!(summarize_resolution_profiles(&[]), (None, None));
}

#[test]
fn watermark_is_latest_close_from_zero() {
    assert_eq!(data_watermark(&[]), 0);
    assert_eq!(data_watermark(&[5, 30, 12]), 30);
    assert_eq!(data_watermark(&[-4, -1]), 0);
}
