//! Validation of a resolution calibration profile before it may serve:
//! versions, estimator and publication invariants, the recorded digest of
//! the profile, and the agreement of every vector dimension.

use vstd::prelude::*;
use crate::calibration::{
    bit_length, integer_log2, integer_sqrt, is_sha256_text, publication_coherent, valid_sha256,
    CalibrationError, PublicationPolicy, RESOLUTION_CALIBRATION_VERSION,
    RESOLUTION_PROFILE_SCHEMA, STRUCTURAL_VECTOR_VERSION,
};
use crate::digest::{digest_text, sha256_text};
use crate::text::text_eq;

verus! {

/// The shape of one calibrated sample.
#[derive(Debug, Clone, Copy, PartialEq, Eq, Structural)]
pub struct SampleShape {
    pub vector_len: usize,
    pub availability_mask_len: usize,
    /// Every value of the sample's vector is finite.
    pub values_finite: bool,
}

/// What validation reads of a resolution calibration profile. The
/// floating-point fields arrive as the outcomes of their checks.
#[derive(Debug, Clone)]
pub struct ProfileSummary {
    pub schema: String,
    pub calibration_version: String,
    pub structural_vector_version: String,
    pub engine_version: String,
    pub prefix_causality_verified: bool,
    pub runtime_recalibration: bool,
    pub minimum_support: usize,
    pub neighbor_count: usize,
    /// The estimator's maximum distance and distance power are both finite
    /// and positive.
    pub estimator_scales_positive: bool,
    pub publication: PublicationPolicy,
    pub up_down_symmetric: bool,
    /// The upper and lower barrier volatility multiples are equal.
    pub barriers_equal: bool,
    pub untouched_test: bool,
    pub evidence_status: String,
    pub confidence_level_bp: u16,
    pub reliability_bp: u16,
    pub reliability_lower_bound_bp: u16,
    /// The multiclass, climatology and skill Brier scores are finite.
    pub brier_scores_finite: bool,
    pub feature_names_len: usize,
    pub median_len: usize,
    pub scale_len: usize,
    pub effective_dimension_mask: Vec<bool>,
    pub effective_dimension_count: usize,
    pub total_vector_dimensions: usize,
    pub effective_vector_dimensions: usize,
    pub d_o_transport_evaluable_bp: u16,
    pub odce_adaptive_organization_available_bp: u16,
    pub k_mem_strictly_prior_available_bp: u16,
    pub samples: Vec<SampleShape>,
    pub profile_sha256: Option<String>,
}

/// The number of `true` entries.
pub open spec fn count_true(mask: Seq<bool>) -> nat
    decreases mask.len(),
{
    if mask.len() == 0 {
        0
    } else {
        count_true(mask.drop_last()) + if mask.last() {
            1nat
        } else {
            0nat
        }
    }
}

/// The field invariants of a profile: current versions, a non-empty
/// causally verified sample set without runtime recalibration, an
/// admissible estimator, coherent publication and reliability fields, a
/// symmetric outcome label and finite Brier scores.
pub open spec fn profile_fields_valid(p: ProfileSummary) -> bool {
    &&& p.schema@ == RESOLUTION_PROFILE_SCHEMA@
    &&& p.calibration_version@ == RESOLUTION_CALIBRATION_VERSION@
    &&& p.structural_vector_version@ == STRUCTURAL_VECTOR_VERSION@
    &&& p.samples@.len() > 0
    &&& p.prefix_causality_verified
    &&& !p.runtime_recalibration
    &&& p.minimum_support > 0
    &&& p.neighbor_count >= p.minimum_support
    &&& p.estimator_scales_positive
    &&& publication_coherent(
        p.publication,
        p.untouched_test,
        p.evidence_status@,
        p.confidence_level_bp,
        p.reliability_bp,
        p.reliability_lower_bound_bp,
    )
    &&& p.up_down_symmetric
    &&& p.barriers_equal
    &&& p.brier_scores_finite
}

/// Every dimension agrees: normalization, mask, diagnostics and each
/// sample have the dimension of the feature names, at least one dimension
/// is effective, and the diagnostic availabilities are basis points.
pub open spec fn profile_dimensions_valid(p: ProfileSummary) -> bool {
    let d = p.feature_names_len;
    &&& d > 0
    &&& p.median_len == d
    &&& p.scale_len == d
    &&& p.effective_dimension_mask@.len() == d
    &&& p.effective_dimension_count == count_true(p.effective_dimension_mask@)
    &&& p.effective_dimension_count > 0
    &&& p.total_vector_dimensions == d
    &&& p.effective_vector_dimensions == p.effective_dimension_count
    &&& p.d_o_transport_evaluable_bp <= 10_000
    &&& p.odce_adaptive_organization_available_bp <= 10_000
    &&& p.k_mem_strictly_prior_available_bp <= 10_000
    &&& forall|i: int|
        0 <= i < p.samples@.len() ==> {
            let s = #[trigger] p.samples@[i];
            s.vector_len == d && s.availability_mask_len == d && s.values_finite
        }
}

/// The profile records the digest of its own canonical form, taken with
/// the digest field cleared.
pub open spec fn profile_digest_matches(p: ProfileSummary, unhashed_canonical: Seq<u8>) -> bool {
    p.profile_sha256 matches Some(h) && h@ == digest_text(unhashed_canonical)
}

/// The profile passes validation.
pub open spec fn profile_valid(p: ProfileSummary, unhashed_canonical: Seq<u8>) -> bool {
    &&& profile_fields_valid(p)
    &&& profile_digest_matches(p, unhashed_canonical)
    &&& profile_dimensions_valid(p)
}

/// The message of the first validation check that a profile fails, or
/// `None` when it passes them all.
pub open spec fn profile_error(p: ProfileSummary, unhashed_canonical: Seq<u8>) -> Option<Seq<char>> {
    if !profile_fields_valid(p) {
        Some("field invariant"@)
    } else if p.profile_sha256 is None {
        Some("missing profile hash"@)
    } else if !profile_digest_matches(p, unhashed_canonical) {
        Some("profile hash mismatch"@)
    } else if !profile_dimensions_valid(p) {
        Some("vector dimension"@)
    } else {
        None
    }
}

/// `r` is what validation answers for the first failed check, if any.
pub open spec fn answers_profile_error(r: Result<(), CalibrationError>, e: Option<Seq<char>>) -> bool {
    match e {
        None => r is Ok,
        Some(m) => r matches Err(CalibrationError::InvalidProfile(found)) && found@ == m,
    }
}

fn count_effective(mask: &Vec<bool>) -> (r: usize)
    ensures
        r == count_true(mask@),
{
    let mut count: usize = 0;
    let mut i: usize = 0;
    while i < mask.len()
        invariant
            i <= mask@.len(),
            count == count_true(mask@.subrange(0, i as int)),
            count <= i,
        decreases mask@.len() - i,
    {
        proof {
            assert(mask@.subrange(0, i + 1).drop_last() =~= mask@.subrange(0, i as int));
        }
        if mask[i] {
            count = count + 1;
        }
        i = i + 1;
    }
    assert(mask@.subrange(0, mask@.len() as int) =~= mask@);
    count
}

fn fields_valid(p: &ProfileSummary) -> (r: bool)
    ensures
        r == profile_fields_valid(*p),
{
    text_eq(p.schema.as_str(), RESOLUTION_PROFILE_SCHEMA) && text_eq(
        p.calibration_version.as_str(),
        RESOLUTION_CALIBRATION_VERSION,
    ) && text_eq(p.structural_vector_version.as_str(), STRUCTURAL_VECTOR_VERSION)
        && p.samples.len() > 0 && p.prefix_causality_verified && !p.runtime_recalibration
        && p.minimum_support > 0 && p.neighbor_count >= p.minimum_support
        && p.estimator_scales_positive && crate::calibration::check_publication_coherence(
        &p.publication,
        p.untouched_test,
        p.evidence_status.as_str(),
        p.confidence_level_bp,
        p.reliability_bp,
        p.reliability_lower_bound_bp,
    ) && p.up_down_symmetric && p.barriers_equal && p.brier_scores_finite
}

fn samples_match(samples: &Vec<SampleShape>, d: usize) -> (r: bool)
    ensures
        r == (forall|i: int|
            0 <= i < samples@.len() ==> {
                let s = #[trigger] samples@[i];
                s.vector_len == d && s.availability_mask_len == d && s.values_finite
            }),
{
    let mut i: usize = 0;
    while i < samples.len()
        invariant
            i <= samples@.len(),
            forall|k: int|
                0 <= k < i ==> {
                    let s = #[trigger] samples@[k];
                    s.vector_len == d && s.availability_mask_len == d && s.values_finite
                },
        decreases samples@.len() - i,
    {
        let s = samples[i];
        if !(s.vector_len == d && s.availability_mask_len == d && s.values_finite) {
            return false;
        }
        i = i + 1;
    }
    true
}

fn dimensions_valid(p: &ProfileSummary) -> (r: bool)
    ensures
        r == profile_dimensions_valid(*p),
{
    let d = p.feature_names_len;
    d > 0 && p.median_len == d && p.scale_len == d && p.effective_dimension_mask.len() == d
        && p.effective_dimension_count == count_effective(&p.effective_dimension_mask)
        && p.effective_dimension_count > 0 && p.total_vector_dimensions == d
        && p.effective_vector_dimensions == p.effective_dimension_count
        && p.d_o_transport_evaluable_bp <= 10_000 && p.odce_adaptive_organization_available_bp
        <= 10_000 && p.k_mem_strictly_prior_available_bp <= 10_000 && samples_match(
        &p.samples,
        d,
    )
}

/// Validates a profile. `unhashed_canonical` is the canonical JSON of the
/// profile with its digest field cleared. The checks run in order: field
/// invariants, then the presence and the value of the recorded digest,
/// then the vector dimensions; the first that fails names the error.
pub fn validate_profile(p: &ProfileSummary, unhashed_canonical: &[u8]) -> (r: Result<
    (),
    CalibrationError,
>)
    ensures
        answers_profile_error(r, profile_error(*p, unhashed_canonical@)),
        r is Ok <==> profile_valid(*p, unhashed_canonical@),
{
    if !fields_valid(p) {
        return Err(CalibrationError::InvalidProfile("field invariant".to_owned()));
    }
    let expected = match &p.profile_sha256 {
        Some(h) => h,
        None => {
            return Err(CalibrationError::InvalidProfile("missing profile hash".to_owned()));
        },
    };
    let actual = sha256_text(unhashed_canonical);
    if !text_eq(actual.as_str(), expected.as_str()) {
        return Err(CalibrationError::InvalidProfile("profile hash mismatch".to_owned()));
    }
    if !dimensions_valid(p) {
        return Err(CalibrationError::InvalidProfile("vector dimension".to_owned()));
    }
    Ok(())
}

/// Validates a profile, then requires it to have been calibrated with the
/// engine version that serves it.
pub fn validate_profile_for_engine(
    p: &ProfileSummary,
    unhashed_canonical: &[u8],
    expected_engine_version: &str,
) -> (r: Result<(), CalibrationError>)
    ensures
        profile_error(*p, unhashed_canonical@) is Some ==> answers_profile_error(
            r,
            profile_error(*p, unhashed_canonical@),
        ),
        profile_error(*p, unhashed_canonical@) is None && p.engine_version@
            != expected_engine_version@ ==> (r matches Err(CalibrationError::Incompatible(m))
            && m@ == "engine version differs from calibration authority"@),
        r is Ok <==> profile_valid(*p, unhashed_canonical@) && p.engine_version@
            == expected_engine_version@,
{
    let checked = validate_profile(p, unhashed_canonical);
    if checked.is_err() {
        return checked;
    }
    if !text_eq(p.engine_version.as_str(), expected_engine_version) {
        return Err(
            CalibrationError::Incompatible(
                "engine version differs from calibration authority".to_owned(),
            ),
        );
    }
    Ok(())
}

/// `s` is the integer square root of `v`.
pub open spec fn is_integer_sqrt(s: int, v: int) -> bool {
    0 <= s && s * s <= v < (s + 1) * (s + 1)
}

/// `x`, raised to at least `m`.
pub open spec fn at_least(x: int, m: int) -> int {
    if x < m {
        m
    } else {
        x
    }
}

/// The sizes that a calibration derives from its corpus before any
/// outcome is seen: the volatility lookback and maximum horizon in bars,
/// the number of frames held out for validation and again for the
/// untouched test, and the frames at which those two splits begin.
#[derive(Debug, Clone, Copy, PartialEq, Eq, Structural)]
pub struct TemporalSplitPlan {
    pub volatility_lookback: usize,
    pub maximum_horizon: usize,
    pub test_count: usize,
    pub test_split_frame: usize,
    pub validation_split_frame: usize,
}

/// The split of `bar_count` bars and `frame_count` frames: at least 16 bars
/// and 8 frames; the lookback is the square root of the bar count and the
/// horizon its binary length, each at least 2; the test and the validation
/// each take the square root of the frame count, at least 1, from the end,
/// and each split must leave at least 4 frames before it.
pub open spec fn split_plan_is(
    bar_count: usize,
    frame_count: usize,
    r: Result<TemporalSplitPlan, CalibrationError>,
) -> bool {
    if bar_count < 16 || frame_count < 8 {
        r == Err::<TemporalSplitPlan, CalibrationError>(CalibrationError::InsufficientData)
    } else {
        exists|sb: int, sf: int|
            #![trigger is_integer_sqrt(sb, bar_count as int), is_integer_sqrt(sf, frame_count as int)]
            is_integer_sqrt(sb, bar_count as int) && is_integer_sqrt(sf, frame_count as int) && {
                let test = at_least(sf, 1);
                let test_split = frame_count - test;
                let validation_split = test_split - test;
                if test_split < 4 || validation_split < 4 {
                    r == Err::<TemporalSplitPlan, CalibrationError>(CalibrationError::InsufficientData)
                } else {
                    r matches Ok(plan) && plan.volatility_lookback == at_least(sb, 2)
                        && plan.maximum_horizon == at_least(bit_length(bar_count as nat) as int, 2)
                        && plan.test_count == test && plan.test_split_frame == test_split
                        && plan.validation_split_frame == validation_split
                }
            }
    }
}

/// Plans the temporal split of a calibration corpus.
pub fn plan_temporal_split(bar_count: usize, frame_count: usize) -> (r: Result<
    TemporalSplitPlan,
    CalibrationError,
>)
    ensures
        split_plan_is(bar_count, frame_count, r),
{
    if bar_count < 16 || frame_count < 8 {
        return Err(CalibrationError::InsufficientData);
    }
    let sb = integer_sqrt(bar_count);
    let sf = integer_sqrt(frame_count);
    let log = integer_log2(bar_count);
    assert(is_integer_sqrt(sb as int, bar_count as int));
    assert(is_integer_sqrt(sf as int, frame_count as int));
    let volatility_lookback = if sb < 2 { 2 } else { sb };
    let maximum_horizon = if log < 2 { 2 } else { log };
    let test_count = if sf < 1 { 1 } else { sf };
    assert(test_count <= frame_count) by (nonlinear_arith)
        requires
            sf * sf <= frame_count,
            test_count == (if sf < 1 { 1 } else { sf }),
            frame_count >= 8,
    ;
    let test_split_frame = frame_count - test_count;
    if test_split_frame < 4 || test_split_frame < test_count || test_split_frame - test_count < 4 {
        return Err(CalibrationError::InsufficientData);
    }
    Ok(TemporalSplitPlan {
        volatility_lookback,
        maximum_horizon,
        test_count,
        test_split_frame,
        validation_split_frame: test_split_frame - test_count,
    })
}

/// The estimator's sizes for `training_count` training samples: as many
/// neighbours as the square root of the count, at least 1, and a minimum
/// support of its binary length, at least 1 and at most the neighbours.
pub fn estimator_sizes(training_count: usize) -> (r: (usize, usize))
    ensures
        exists|s: int|
            #![trigger is_integer_sqrt(s, training_count as int)]
            is_integer_sqrt(s, training_count as int) && r.0 == at_least(s, 1),
        r.1 == if at_least(bit_length(if training_count == 0 { 1 } else { training_count as nat }) as int, 1) > r.0 {
            r.0 as int
        } else {
            at_least(bit_length(if training_count == 0 { 1 } else { training_count as nat }) as int, 1)
        },
{
    let s = integer_sqrt(training_count);
    assert(is_integer_sqrt(s as int, training_count as int));
    let neighbor_count = if s < 1 { 1 } else { s };
    let log = integer_log2(training_count);
    let support = if log < 1 { 1 } else { log };
    let minimum_support = if support > neighbor_count { neighbor_count } else { support };
    (neighbor_count, minimum_support)
}

/// The publication policy of a newly built profile and the evidence status
/// of its held-out reliability: parameters are selected on temporal
/// validation and never on test outcomes, positive Brier skill is required,
/// and only a valid preregistered protocol hash makes the profile eligible,
/// evaluated on the untouched test. A hash that is given and not valid is
/// refused.
pub open spec fn derived_publication_is(
    minimum_direction_edge_bp: u16,
    minimum_reliability_bp: u16,
    protocol: Option<Seq<char>>,
    r: Result<(PublicationPolicy, String), CalibrationError>,
) -> bool {
    let preregistered = protocol matches Some(h) && is_sha256_text(h);
    if protocol is Some && !preregistered {
        r matches Err(CalibrationError::InvalidProfile(m)) && m@ == "invalid preregistered protocol hash"@
    } else {
        match r {
            Ok((p, status)) => {
                &&& p.minimum_direction_edge_bp == minimum_direction_edge_bp
                &&& p.minimum_reliability_bp == minimum_reliability_bp
                &&& p.parameters_selected_on@ == "TEMPORAL_VALIDATION"@
                &&& p.reliability_evaluated_on@ == if preregistered {
                    "UNTOUCHED_TEMPORAL_TEST"@
                } else {
                    "CONSUMED_DEVELOPMENT_AUDIT"@
                }
                &&& !p.test_outcomes_used_for_parameter_selection
                &&& p.requires_positive_brier_skill
                &&& p.profile_eligible_for_publication == preregistered
                &&& opt_seq(p.preregistered_protocol_sha256) == protocol
                &&& status@ == if preregistered {
                    "PREREGISTERED_UNTOUCHED_TEST"@
                } else {
                    "DEVELOPMENT_AUDIT_CONSUMED"@
                }
            },
            Err(_) => false,
        }
    }
}

pub open spec fn opt_seq(o: Option<String>) -> Option<Seq<char>> {
    match o {
        Some(t) => Some(t@),
        None => None,
    }
}

/// Derives a new profile's publication policy and evidence status.
pub fn derive_publication_policy(
    minimum_direction_edge_bp: u16,
    minimum_reliability_bp: u16,
    preregistered_protocol_sha256: Option<&str>,
) -> (r: Result<(PublicationPolicy, String), CalibrationError>)
    ensures
        derived_publication_is(
            minimum_direction_edge_bp,
            minimum_reliability_bp,
            match preregistered_protocol_sha256 {
                Some(h) => Some(h@),
                None => None,
            },
            r,
        ),
{
    let protocol = match preregistered_protocol_sha256 {
        Some(h) => {
            if !valid_sha256(h) {
                return Err(CalibrationError::InvalidProfile("invalid preregistered protocol hash".to_owned()));
            }
            Some(h.to_owned())
        },
        None => None,
    };
    let preregistered = protocol.is_some();
    let policy = PublicationPolicy {
        minimum_direction_edge_bp,
        minimum_reliability_bp,
        parameters_selected_on: "TEMPORAL_VALIDATION".to_owned(),
        reliability_evaluated_on: if preregistered {
            "UNTOUCHED_TEMPORAL_TEST".to_owned()
        } else {
            "CONSUMED_DEVELOPMENT_AUDIT".to_owned()
        },
        test_outcomes_used_for_parameter_selection: false,
        requires_positive_brier_skill: true,
        profile_eligible_for_publication: preregistered,
        preregistered_protocol_sha256: protocol,
    };
    let status = if preregistered {
        "PREREGISTERED_UNTOUCHED_TEST".to_owned()
    } else {
        "DEVELOPMENT_AUDIT_CONSUMED".to_owned()
    };
    Ok((policy, status))
}

} // verus!
