use financial_signal::calibration::{
    CalibrationError, PublicationPolicy, ENGINE_VERSION, RESOLUTION_CALIBRATION_VERSION,
    RESOLUTION_PROFILE_SCHEMA, STRUCTURAL_VECTOR_VERSION,
};
use financial_signal::digest::sha256_text;
use financial_signal::profile::{
    derive_publication_policy, estimator_sizes, plan_temporal_split, validate_profile,
    validate_profile_for_engine, ProfileSummary, SampleShape, TemporalSplitPlan,
};

const CANONICAL: &[u8] = b"{\"schema\":\"profile without its digest\"}";

fn summary() -> ProfileSummary {
    ProfileSummary {
        schema: RESOLUTION_PROFILE_SCHEMA.into(),
        calibration_version: RESOLUTION_CALIBRATION_VERSION.into(),
        structural_vector_version: STRUCTURAL_VECTOR_VERSION.into(),
        engine_version: ENGINE_VERSION.into(),
        prefix_causality_verified: true,
        runtime_recalibration: false,
        minimum_support: 3,
        neighbor_count: 5,
        estimator_scales_positive: true,
        publication: PublicationPolicy {
            minimum_direction_edge_bp: 2065,
            minimum_reliability_bp: 9500,
            parameters_selected_on: "TEMPORAL_VALIDATION".into(),
            reliability_evaluated_on: "CONSUMED_DEVELOPMENT_AUDIT".into(),
            test_outcomes_used_for_parameter_selection: false,
            requires_positive_brier_skill: true,
            profile_eligible_for_publication: false,
            preregistered_protocol_sha256: None,
        },
        up_down_symmetric: true,
        barriers_equal: true,
        untouched_test: false,
        evidence_status: "DEVELOPMENT_AUDIT_CONSUMED".into(),
        confidence_level_bp: 9500,
        reliability_bp: 6000,
        reliability_lower_bound_bp: 5200,
        brier_scores_finite: true,
        feature_names_len: 3,
        median_len: 3,
        scale_len: 3,
        effective_dimension_mask: vec![true, false, true],
        effective_dimension_count: 2,
        total_vector_dimensions: 3,
        effective_vector_dimensions: 2,
        d_o_transport_evaluable_bp: 10000,
        odce_adaptive_organization_available_bp: 9000,
        k_mem_strictly_prior_available_bp: 8000,
        samples: vec![
            SampleShape { vector_len: 3, availability_mask_len: 3, values_finite: true },
            SampleShape { vector_len: 3, availability_mask_len: 3, values_finite: true },
        ],
        profile_sha256: Some(sha256_text(CANONICAL)),
    }
}

fn invalid(message: &str) -> Result<(), CalibrationError> {
    Err(CalibrationError::InvalidProfile(message.into()))
}

#[test]
fn consistent_profile_validates() {
    assert_eq!(validate_profile(&summary(), CANONICAL), Ok(()));
    assert_eq!(validate_profile_for_engine(&summary(), CANONICAL, ENGINE_VERSION), Ok(()));
}

#[test]
fn field_invariants_are_checked_first() {
    let mut stale = summary();
    stale.schema = "pramagraph.resolution_calibration_profile.v1".into();
    stale.profile_sha256 = None;
    assert_eq!(validate_profile(&stale, CANONICAL), invalid("field invariant"));

    let mut recalibrating = summary();
    recalibrating.runtime_recalibration = true;
    assert_eq!(validate_profile(&recalibrating, CANONICAL), invalid("field invariant"));

    let mut thin = summary();
    thin.neighbor_count = 2;
    assert_eq!(validate_profile(&thin, CANONICAL), invalid("field invariant"));

    let mut asymmetric = summary();
    asymmetric.barriers_equal = false;
    assert_eq!(validate_profile(&asymmetric, CANONICAL), invalid("field invariant"));

    let mut wrong_confidence = summary();
    wrong_confidence.confidence_level_bp = 9000;
    assert_eq!(validate_profile(&wrong_confidence, CANONICAL), invalid("field invariant"));
}

#[test]
fn recorded_digest_must_match_canonical_form() {
    let mut unsigned = summary();
    unsigned.profile_sha256 = None;
    assert_eq!(validate_profile(&unsigned, CANONICAL), invalid("missing profile hash"));

    assert_eq!(
        validate_profile(&summary(), b"{\"schema\":\"edited after sealing\"}"),
        invalid("profile hash mismatch")
    );
}

#[test]
fn vector_dimensions_must_agree() {
    let mut miscounted = summary();
    miscounted.effective_dimension_count = 3;
    miscounted.effective_vector_dimensions = 3;
    assert_eq!(validate_profile(&miscounted, CANONICAL), invalid("vector dimension"));

    let mut short_sample = summary();
    short_sample.samples[1].availability_mask_len = 2;
    assert_eq!(validate_profile(&short_sample, CANONICAL), invalid("vector dimension"));

    let mut non_finite = summary();
    non_finite.samples[0].values_finite = false;
    assert_eq!(validate_profile(&non_finite, CANONICAL), invalid("vector dimension"));

    let mut over_basis = summary();
    over_basis.k_mem_strictly_prior_available_bp = 10001;
    assert_eq!(validate_profile(&over_basis, CANONICAL), invalid("vector dimension"));
}

#[test]
fn profile_from_another_engine_is_incompatible() {
    assert_eq!(
        validate_profile_for_engine(&summary(), CANONICAL, "prama-protokol-rs/0.2.0"),
        Err(CalibrationError::Incompatible(
            "engine version differs from calibration authority".into()
        ))
    );
    let mut unsigned = summary();
    unsigned.profile_sha256 = None;
    assert_eq!(
        validate_profile_for_engine(&unsigned, CANONICAL, "prama-protokol-rs/0.2.0"),
        invalid("missing profile hash")
    );
}

#[test]
fn calibration_errors_describe_themselves() {
    assert_eq!(
        CalibrationError::InvalidProfile("vector dimension".into()).message(),
        "resolution profile contract is invalid: vector dimension"
    );
    assert_eq!(
        CalibrationError::Incompatible("engine version differs from calibration authority".into())
            .message(),
        "profile is not compatible with the structural vector: engine version differs from calibration authority"
    );
    assert_eq!(CalibrationError::NonFinite.message(), "calibration contains a non-finite value");
}

#[test]
fn temporal_split_is_sized_from_the_corpus() {
    assert_eq!(
        plan_temporal_split(100, 100),
        Ok(TemporalSplitPlan {
            volatility_lookback: 10,
            maximum_horizon: 7,
            test_count: 10,
            test_split_frame: 90,
            validation_split_frame: 80,
        })
    );
    assert_eq!(plan_temporal_split(15, 100), Err(CalibrationError::InsufficientData));
    assert_eq!(plan_temporal_split(100, 7), Err(CalibrationError::InsufficientData));
    assert_eq!(plan_temporal_split(100, 8).map(|plan| plan.validation_split_frame), Ok(4));
    assert_eq!(plan_temporal_split(100, 9), Err(CalibrationError::InsufficientData));
}

#[test]
fn estimator_sizes_follow_the_training_count() {
    assert_eq!(estimator_sizes(100), (10, 7));
    assert_eq!(estimator_sizes(4), (2, 2));
    assert_eq!(estimator_sizes(0), (1, 1));
}

#[test]
fn only_a_valid_protocol_hash_makes_a_new_profile_eligible() {
    let (policy, status) = derive_publication_policy(2065, 9000, None).unwrap();
    assert!(!policy.profile_eligible_for_publication);
    assert_eq!(policy.reliability_evaluated_on, "CONSUMED_DEVELOPMENT_AUDIT");
    assert_eq!(status, "DEVELOPMENT_AUDIT_CONSUMED");
    let hash = sha256_text(b"protocol");
    let (policy, status) = derive_publication_policy(2065, 9000, Some(&hash)).unwrap();
    assert!(policy.profile_eligible_for_publication);
    assert_eq!(policy.preregistered_protocol_sha256, Some(hash));
    assert_eq!(status, "PREREGISTERED_UNTOUCHED_TEST");
    assert_eq!(
        derive_publication_policy(2065, 9000, Some("sha256:nothex")),
        Err(CalibrationError::InvalidProfile("invalid preregistered protocol hash".into()))
    );
}
