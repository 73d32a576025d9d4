//! Directional calibration contracts and the integer arithmetic of held-out
//! evaluation: basis-point ratios, direction keys, per-direction reliability,
//! confusion matrices, integer square roots and logarithms, medians.

use vstd::prelude::*;
use crate::text::{concat, text_eq};
use crate::contracts::{CalibrationScope, Direction, Horizon, ProbabilitiesBp};
use crate::dynamics::{variant_rank, variant_rank_of, DynamicsVariant};
use vstd::arithmetic::power2::{lemma2_to64, lemma_pow2_unfold, pow2};

verus! {

/// Structural vector version consumed by calibration profiles.
pub const STRUCTURAL_VECTOR_VERSION: &'static str = "financial_structural_vector_v2";

pub const RESOLUTION_PROFILE_SCHEMA: &'static str = "pramagraph.resolution_calibration_profile.v2";

pub const RESOLUTION_CALIBRATION_VERSION: &'static str = "financial_first_passage_weighted_neighbors_v2";

/// 2025-08-21T00:00:00Z, the historical/development data cutoff.
pub const DEVELOPMENT_DATA_CUTOFF_NS: i64 = 1755734400000000000;

/// 2026-07-21T00:00:00Z, the protocol freeze/preregistration timestamp.
pub const PROTOCOL_FREEZE_TIMESTAMP_NS: i64 = 1766304000000000000;

#[derive(Debug, Clone, PartialEq, Eq)]
pub struct PublicationPolicy {
    pub minimum_direction_edge_bp: u16,
    pub minimum_reliability_bp: u16,
    pub parameters_selected_on: String,
    pub reliability_evaluated_on: String,
    pub test_outcomes_used_for_parameter_selection: bool,
    pub requires_positive_brier_skill: bool,
    pub profile_eligible_for_publication: bool,
    pub preregistered_protocol_sha256: Option<String>,
}

#[derive(Debug, Clone, PartialEq, Eq)]
pub struct FeatureDiagnostic {
    pub name: String,
    pub available_samples: usize,
    pub availability_bp: u16,
    pub empirically_variable: bool,
    pub included_in_distance: bool,
}

/// The calibrated reading published for one structural vector.
#[derive(Debug, PartialEq, Eq)]
pub struct DirectionalResolution {
    pub direction: Direction,
    pub probabilities_bp: Option<ProbabilitiesBp>,
    pub horizon: Option<Horizon>,
    pub reliability_bp: Option<u16>,
    pub sample_support: u64,
    pub calibration_scope: CalibrationScope,
    pub profile_sha256: String,
    pub publication_reason: String,
}

impl Clone for DirectionalResolution {
    fn clone(&self) -> (r: Self)
        ensures
            r == *self,
    {
        DirectionalResolution {
            direction: self.direction,
            probabilities_bp: self.probabilities_bp,
            horizon: self.horizon,
            reliability_bp: self.reliability_bp,
            sample_support: self.sample_support,
            calibration_scope: self.calibration_scope,
            profile_sha256: self.profile_sha256.clone(),
            publication_reason: self.publication_reason.clone(),
        }
    }
}

#[derive(Debug, Clone, PartialEq, Eq)]
pub enum CalibrationError {
    Alignment,
    InsufficientData,
    NonFinite,
    InvalidProfile(String),
    Incompatible(String),
    Diagnostic(String),
    Hash(String),
}

/// The text that describes a calibration error.
pub open spec fn calibration_error_text(e: CalibrationError) -> Seq<char> {
    match e {
        CalibrationError::Alignment => "calibration needs aligned closed bars and structural frames"@,
        CalibrationError::InsufficientData => "calibration corpus is too short for a temporal train/held-out split"@,
        CalibrationError::NonFinite => "calibration contains a non-finite value"@,
        CalibrationError::InvalidProfile(m) => "resolution profile contract is invalid: "@ + m@,
        CalibrationError::Incompatible(m) => "profile is not compatible with the structural vector: "@ + m@,
        CalibrationError::Diagnostic(m) => "neighbor anatomy diagnostic failed: "@ + m@,
        CalibrationError::Hash(m) => "canonical hashing failed: "@ + m@,
    }
}

impl CalibrationError {
    /// Describes the error.
    pub fn message(&self) -> (r: String)
        ensures
            r@ == calibration_error_text(*self),
    {
        match self {
            CalibrationError::Alignment => "calibration needs aligned closed bars and structural frames".to_owned(),
            CalibrationError::InsufficientData => "calibration corpus is too short for a temporal train/held-out split".to_owned(),
            CalibrationError::NonFinite => "calibration contains a non-finite value".to_owned(),
            CalibrationError::InvalidProfile(m) => concat("resolution profile contract is invalid: ", m.as_str()),
            CalibrationError::Incompatible(m) => concat("profile is not compatible with the structural vector: ", m.as_str()),
            CalibrationError::Diagnostic(m) => concat("neighbor anatomy diagnostic failed: ", m.as_str()),
            CalibrationError::Hash(m) => concat("canonical hashing failed: ", m.as_str()),
        }
    }
}

/// Counts per direction class.
#[derive(Debug, Clone, Copy, PartialEq, Eq, Structural)]
pub struct DiagnosticClassCount {
    pub up: usize,
    pub down: usize,
    pub range: usize,
}

#[derive(Debug, Clone, Copy, PartialEq, Eq, Structural)]
pub struct TopKClassComposition {
    pub actual_k_used: usize,
    pub up: usize,
    pub down: usize,
    pub range: usize,
}

#[derive(Debug, Clone, Copy, PartialEq, Eq, Structural)]
pub struct UnresolvedAuditObservation {
    pub query_timestamp_ns: i64,
    pub actual_direction: Direction,
    pub selected_neighbor_count: usize,
    pub runtime_minimum_support: usize,
}

#[derive(Debug, Clone, PartialEq, Eq)]
pub struct RightCensoredAuditObservation {
    pub query_timestamp_ns: i64,
    pub observed_future_bars: usize,
    pub required_future_bars: usize,
    pub label_source_end_timestamp_ns: i64,
    pub reason: String,
}

#[derive(Debug, Clone, Copy, PartialEq, Eq, Structural)]
pub struct LabelableAuditObservation {
    pub query_timestamp_ns: i64,
    pub actual_direction: Direction,
    pub first_passage_bars: usize,
}

#[derive(Debug, Clone, Copy, PartialEq, Eq, Structural)]
pub struct DynamicsExperimentPrediction {
    pub query_timestamp_ns: i64,
    pub actual_direction: Direction,
    pub predicted_direction: Direction,
    pub probabilities_bp: Option<ProbabilitiesBp>,
    pub selected_neighbor_count: usize,
    pub causal_library_size: usize,
}

/// One held-out evaluation: what happened, what was predicted, and whether
/// the prediction was correct.
#[derive(Debug, Clone, Copy, PartialEq, Eq, Structural)]
pub struct ScoredCase {
    pub actual: Direction,
    pub predicted: Direction,
    pub probabilities: ProbabilitiesBp,
    pub correct: bool,
}

/// Axis of a direction in `[up, range, down]` arrays; an unresolved
/// direction shares the range axis.
pub open spec fn spec_direction_index(direction: Direction) -> usize {
    match direction {
        Direction::Up => 0,
        Direction::Range => 1,
        Direction::Unresolved => 1,
        Direction::Down => 2,
    }
}

pub fn direction_index(direction: Direction) -> (r: usize)
    ensures
        r == spec_direction_index(direction),
{
    match direction {
        Direction::Up => 0,
        Direction::Range | Direction::Unresolved => 1,
        Direction::Down => 2,
    }
}

/// Tie-break priority of directions.
pub open spec fn spec_direction_order(direction: Direction) -> usize {
    match direction {
        Direction::Up => 0,
        Direction::Range => 1,
        Direction::Down => 2,
        Direction::Unresolved => 3,
    }
}

pub fn direction_order(direction: Direction) -> (r: usize)
    ensures
        r == spec_direction_order(direction),
{
    match direction {
        Direction::Up => 0,
        Direction::Range => 1,
        Direction::Down => 2,
        Direction::Unresolved => 3,
    }
}

/// The tie-break order ranks every direction differently.
pub proof fn lemma_direction_order_injective(a: Direction, b: Direction)
    ensures
        spec_direction_order(a) == spec_direction_order(b) <==> a == b,
{
}

/// Serialized key of a direction.
pub fn direction_key(direction: Direction) -> (r: &'static str)
    ensures
        r@ == direction_key_text(direction)@,
{
    direction_key_text(direction)
}

#[verifier::allow_in_spec]
pub fn direction_key_text(direction: Direction) -> &'static str
    returns
        (match direction {
            Direction::Up => "UP",
            Direction::Range => "RANGE",
            Direction::Down => "DOWN",
            Direction::Unresolved => "UNRESOLVED",
        }),
{
    match direction {
        Direction::Up => "UP",
        Direction::Range => "RANGE",
        Direction::Down => "DOWN",
        Direction::Unresolved => "UNRESOLVED",
    }
}

/// `numerator / denominator` in basis points, rounded half up; 0 for an
/// empty denominator. The quotient is narrowed to `u16`.
pub open spec fn spec_ratio_bp(numerator: int, denominator: int) -> u16 {
    if denominator == 0 {
        0
    } else {
        ((numerator * 10_000 + denominator / 2) / denominator) as u16
    }
}

pub fn ratio_bp(numerator: usize, denominator: usize) -> (r: u16)
    requires
        numerator * 10_000 + denominator / 2 <= u64::MAX,
    ensures
        r == spec_ratio_bp(numerator as int, denominator as int),
{
    if denominator == 0 {
        0
    } else {
        let scaled: u64 = numerator as u64 * 10_000 + denominator as u64 / 2;
        (scaled / denominator as u64) as u16
    }
}

/// A ratio of a part to its whole lies in `0..=10000` basis points, and the
/// whole is exactly 10000.
pub proof fn lemma_ratio_bp_bounded(numerator: int, denominator: int)
    requires
        0 <= numerator <= denominator,
    ensures
        spec_ratio_bp(numerator, denominator) <= 10_000,
        denominator > 0 && numerator == denominator ==> spec_ratio_bp(numerator, denominator)
            == 10_000,
        numerator == 0 ==> spec_ratio_bp(numerator, denominator) == 0,
{
    if denominator > 0 {
        let q = (numerator * 10_000 + denominator / 2) / denominator;
        assert(numerator * 10_000 <= denominator * 10_000) by (nonlinear_arith)
            requires
                numerator <= denominator,
                denominator > 0,
        ;
        assert(q <= 10_000) by (nonlinear_arith)
            requires
                q == (numerator * 10_000 + denominator / 2) / denominator,
                numerator * 10_000 <= denominator * 10_000,
                denominator > 0,
                numerator >= 0,
        ;
        assert(numerator == denominator ==> q == 10_000) by (nonlinear_arith)
            requires
                q == (numerator * 10_000 + denominator / 2) / denominator,
                denominator > 0,
        ;
        assert(numerator == 0 ==> q == 0) by (nonlinear_arith)
            requires
                q == (numerator * 10_000 + denominator / 2) / denominator,
                denominator > 0,
        ;
    }
}

pub open spec fn is_lower_hex_digit(c: char) -> bool {
    ('0' <= c && c <= '9') || ('a' <= c && c <= 'f')
}

/// `sha256:` followed by exactly 64 lower-case hexadecimal digits.
pub open spec fn is_sha256_text(value: Seq<char>) -> bool {
    &&& value.len() == 71
    &&& value.subrange(0, 7) == "sha256:"@
    &&& forall|k: int| 7 <= k < 71 ==> is_lower_hex_digit(#[trigger] value[k])
}

pub fn valid_sha256(value: &str) -> (r: bool)
    ensures
        r == is_sha256_text(value@),
{
    let prefix = "sha256:";
    proof {
        reveal_strlit("sha256:");
    }
    let n = value.unicode_len();
    if n != 71 {
        return false;
    }
    let mut i: usize = 0;
    while i < 7
        invariant
            n == value@.len(),
            n == 71,
            prefix@ == "sha256:"@,
            prefix@.len() == 7,
            i <= 7,
            forall|k: int| 0 <= k < i ==> value@[k] == prefix@[k],
        decreases 7 - i,
    {
        if value.get_char(i) != prefix.get_char(i) {
            proof {
                assert(value@.subrange(0, 7)[i as int] != prefix@[i as int]);
            }
            return false;
        }
        i = i + 1;
    }
    assert(value@.subrange(0, 7) =~= "sha256:"@);
    let mut j: usize = 7;
    while j < 71
        invariant
            n == value@.len(),
            n == 71,
            7 <= j <= 71,
            forall|k: int| 7 <= k < j ==> is_lower_hex_digit(#[trigger] value@[k]),
        decreases 71 - j,
    {
        let c = value.get_char(j);
        if !(('0' <= c && c <= '9') || ('a' <= c && c <= 'f')) {
            return false;
        }
        j = j + 1;
    }
    true
}

/// Largest `r` with `r * r <= value`.
pub fn integer_sqrt(value: usize) -> (r: usize)
    ensures
        r * r <= value,
        value < (r + 1) * (r + 1),
{
    let v = value as u64;
    let mut lo: u64 = 0;
    let mut hi: u64 = 4_294_967_296;
    assert(hi * hi > u64::MAX) by (nonlinear_arith)
        requires
            hi == 4_294_967_296u64,
    ;
    while hi - lo > 1
        invariant
            v == value,
            lo < hi <= 4_294_967_296,
            lo * lo <= v,
            hi * hi > v,
        decreases hi - lo,
    {
        let mid = lo + (hi - lo) / 2;
        assert(mid * mid <= 4_294_967_295 * 4_294_967_295) by (nonlinear_arith)
            requires
                mid < 4_294_967_296,
        ;
        if mid * mid <= v {
            lo = mid;
        } else {
            hi = mid;
        }
    }
    assert(lo <= lo * lo || lo == 0) by (nonlinear_arith);
    assert(lo + 1 == hi);
    lo as usize
}

/// Number of binary digits of a positive integer.
pub open spec fn bit_length(x: nat) -> nat
    decreases x,
{
    if x == 0 {
        0
    } else {
        1 + bit_length(x / 2)
    }
}

proof fn lemma_bit_length_bound(x: nat, k: nat)
    requires
        x < pow2(k),
    ensures
        bit_length(x) <= k,
    decreases k,
{
    if x > 0 {
        if k == 0 {
            lemma2_to64();
        } else {
            lemma_pow2_unfold(k);
            lemma_bit_length_bound(x / 2, (k - 1) as nat);
        }
    }
}

/// Bit length of `max(value, 1)`, i.e. `floor(log2(max(value, 1))) + 1`.
pub fn integer_log2(value: usize) -> (r: usize)
    ensures
        r == bit_length(if value == 0 { 1 } else { value as nat }),
{
    let mut x: usize = if value == 0 { 1 } else { value };
    let ghost start: nat = x as nat;
    proof {
        lemma2_to64();
        lemma_bit_length_bound(start, 64);
    }
    let mut r: usize = 0;
    while x > 0
        invariant
            r + bit_length(x as nat) == bit_length(start),
            bit_length(start) <= 64,
        decreases x,
    {
        r = r + 1;
        x = x / 2;
    }
    r
}


/// Largest minus second largest of the three probabilities.
pub open spec fn spec_probability_edge(p: ProbabilitiesBp) -> int {
    let hi = vstd::math::max(vstd::math::max(p.up as int, p.range as int), p.down as int);
    let lo = vstd::math::min(vstd::math::min(p.up as int, p.range as int), p.down as int);
    let mid = p.up + p.range + p.down - hi - lo;
    hi - mid
}

/// Margin of the most probable direction over the runner-up, in basis points.
pub fn probability_edge_bp(probabilities: ProbabilitiesBp) -> (r: u16)
    ensures
        r == spec_probability_edge(probabilities),
{
    let a = probabilities.up;
    let b = probabilities.range;
    let c = probabilities.down;
    let hi = if a >= b && a >= c {
        a
    } else if b >= c {
        b
    } else {
        c
    };
    let lo = if a <= b && a <= c {
        a
    } else if b <= c {
        b
    } else {
        c
    };
    let mid: u16 = ((a as u32 + b as u32 + c as u32) - hi as u32 - lo as u32) as u16;
    hi - mid
}

/// Per-direction counts from an `[up, range, down]` array.
pub fn diagnostic_count(values: [usize; 3]) -> (r: DiagnosticClassCount)
    ensures
        r.up == values[0],
        r.range == values[1],
        r.down == values[2],
{
    DiagnosticClassCount { up: values[0], down: values[2], range: values[1] }
}

/// A resolution that publishes no direction, with the reason why.
pub fn unresolved(
    scope: CalibrationScope,
    hash: String,
    support: usize,
    reason: &str,
) -> (r: DirectionalResolution)
    ensures
        r.direction == Direction::Unresolved,
        r.probabilities_bp.is_none(),
        r.horizon.is_none(),
        r.reliability_bp.is_none(),
        r.sample_support == support,
        r.calibration_scope == scope,
        r.profile_sha256 == hash,
        r.publication_reason@ == reason@,
{
    DirectionalResolution {
        direction: Direction::Unresolved,
        probabilities_bp: None,
        horizon: None,
        reliability_bp: None,
        sample_support: support as u64,
        calibration_scope: scope,
        profile_sha256: hash,
        publication_reason: reason.to_owned(),
    }
}

/// Number of cases whose actual (or predicted) direction is `direction`,
/// restricted to correct cases when `correct_only` holds.
pub open spec fn tally(
    results: Seq<ScoredCase>,
    by_actual: bool,
    direction: Direction,
    correct_only: bool,
) -> nat
    decreases results.len(),
{
    if results.len() == 0 {
        0
    } else {
        let last = results.last();
        let selected = if by_actual {
            last.actual == direction
        } else {
            last.predicted == direction
        };
        tally(results.drop_last(), by_actual, direction, correct_only) + if selected && (
        !correct_only || last.correct) {
            1nat
        } else {
            0nat
        }
    }
}

/// Number of cases with this actual and this predicted direction.
pub open spec fn pair_tally(results: Seq<ScoredCase>, actual: Direction, predicted: Direction) -> nat
    decreases results.len(),
{
    if results.len() == 0 {
        0
    } else {
        let last = results.last();
        pair_tally(results.drop_last(), actual, predicted) + if last.actual == actual
            && last.predicted == predicted {
            1nat
        } else {
            0nat
        }
    }
}

proof fn lemma_tally_bounds(results: Seq<ScoredCase>, by_actual: bool, direction: Direction)
    ensures
        tally(results, by_actual, direction, true) <= tally(results, by_actual, direction, false),
        tally(results, by_actual, direction, false) <= results.len(),
    decreases results.len(),
{
    if results.len() > 0 {
        lemma_tally_bounds(results.drop_last(), by_actual, direction);
    }
}

fn count_cases(results: &[ScoredCase], by_actual: bool, direction: Direction, correct_only: bool) -> (r: usize)
    ensures
        r == tally(results@, by_actual, direction, correct_only),
{
    let n = results.len();
    let mut count: usize = 0;
    let mut i: usize = 0;
    while i < n
        invariant
            n == results@.len(),
            i <= n,
            count == tally(results@.subrange(0, i as int), by_actual, direction, correct_only),
            count <= i,
        decreases n - i,
    {
        let case = results[i];
        assert(results@.subrange(0, i + 1).drop_last() =~= results@.subrange(0, i as int));
        let selected = if by_actual {
            case.actual == direction
        } else {
            case.predicted == direction
        };
        if selected && (!correct_only || case.correct) {
            count = count + 1;
        }
        i = i + 1;
    }
    assert(results@.subrange(0, n as int) =~= results@);
    count
}

fn count_pairs(results: &[ScoredCase], actual: Direction, predicted: Direction) -> (r: usize)
    ensures
        r == pair_tally(results@, actual, predicted),
{
    let n = results.len();
    let mut count: usize = 0;
    let mut i: usize = 0;
    while i < n
        invariant
            n == results@.len(),
            i <= n,
            count == pair_tally(results@.subrange(0, i as int), actual, predicted),
            count <= i,
        decreases n - i,
    {
        let case = results[i];
        assert(results@.subrange(0, i + 1).drop_last() =~= results@.subrange(0, i as int));
        if case.actual == actual && case.predicted == predicted {
            count = count + 1;
        }
        i = i + 1;
    }
    assert(results@.subrange(0, n as int) =~= results@);
    count
}

/// An optional basis-point value per direction; absent where no case applies.
#[derive(Debug, Clone, Copy, PartialEq, Eq, Structural)]
pub struct DirectionBp {
    pub up: Option<u16>,
    pub range: Option<u16>,
    pub down: Option<u16>,
}

/// Confusion counts: one row per actual direction, one column per predicted direction.
#[derive(Debug, Clone, Copy, PartialEq, Eq, Structural)]
pub struct DirectionConfusion {
    pub up: DiagnosticClassCount,
    pub range: DiagnosticClassCount,
    pub down: DiagnosticClassCount,
}

/// Basis-point ratio of correct cases among the cases selected by direction,
/// or nothing when none is selected.
pub open spec fn share_of(results: Seq<ScoredCase>, by_actual: bool, direction: Direction) -> Option<u16> {
    let total = tally(results, by_actual, direction, false);
    if total == 0 {
        None
    } else {
        Some(spec_ratio_bp(tally(results, by_actual, direction, true) as int, total as int))
    }
}

/// The case count keeps every basis-point product within `u64`.
pub open spec fn fits_bp_scaling(count: int) -> bool {
    count * 10_001 <= u64::MAX
}

fn share(results: &[ScoredCase], by_actual: bool, direction: Direction) -> (r: Option<u16>)
    requires
        fits_bp_scaling(results@.len() as int),
    ensures
        r == share_of(results@, by_actual, direction),
{
    let total = count_cases(results, by_actual, direction, false);
    if total == 0 {
        None
    } else {
        let correct = count_cases(results, by_actual, direction, true);
        proof {
            lemma_tally_bounds(results@, by_actual, direction);
        }
        Some(ratio_bp(correct, total))
    }
}

/// Precision of each predicted direction: the share of its predictions that
/// were correct.
pub fn direction_reliability(results: &[ScoredCase]) -> (r: DirectionBp)
    requires
        fits_bp_scaling(results@.len() as int),
    ensures
        r.up == share_of(results@, false, Direction::Up),
        r.range == share_of(results@, false, Direction::Range),
        r.down == share_of(results@, false, Direction::Down),
{
    DirectionBp {
        up: share(results, false, Direction::Up),
        range: share(results, false, Direction::Range),
        down: share(results, false, Direction::Down),
    }
}

/// Recall of each actual direction: the share of its cases that were
/// predicted correctly.
pub fn actual_direction_recall(results: &[ScoredCase]) -> (r: DirectionBp)
    requires
        fits_bp_scaling(results@.len() as int),
    ensures
        r.up == share_of(results@, true, Direction::Up),
        r.range == share_of(results@, true, Direction::Range),
        r.down == share_of(results@, true, Direction::Down),
{
    DirectionBp {
        up: share(results, true, Direction::Up),
        range: share(results, true, Direction::Range),
        down: share(results, true, Direction::Down),
    }
}

pub open spec fn present_count(value: Option<u16>) -> int {
    if value.is_some() {
        1
    } else {
        0
    }
}

pub open spec fn present_value(value: Option<u16>) -> int {
    match value {
        Some(v) => v as int,
        None => 0,
    }
}

/// Truncated mean of the recalls that exist; 0 when none does.
pub open spec fn spec_balanced_accuracy(recall: DirectionBp) -> u16 {
    let n = present_count(recall.up) + present_count(recall.range) + present_count(recall.down);
    let total = present_value(recall.up) + present_value(recall.range) + present_value(
        recall.down,
    );
    if n == 0 {
        0
    } else {
        (total / n) as u16
    }
}

/// Mean recall over the actual directions that occur.
pub fn balanced_accuracy_bp(results: &[ScoredCase]) -> (r: u16)
    requires
        fits_bp_scaling(results@.len() as int),
    ensures
        r == spec_balanced_accuracy(
            DirectionBp {
                up: share_of(results@, true, Direction::Up),
                range: share_of(results@, true, Direction::Range),
                down: share_of(results@, true, Direction::Down),
            },
        ),
{
    let recall = actual_direction_recall(results);
    let mut n: u32 = 0;
    let mut total: u32 = 0;
    match recall.up {
        Some(v) => {
            n = n + 1;
            total = total + v as u32;
        },
        None => {},
    }
    match recall.range {
        Some(v) => {
            n = n + 1;
            total = total + v as u32;
        },
        None => {},
    }
    match recall.down {
        Some(v) => {
            n = n + 1;
            total = total + v as u32;
        },
        None => {},
    }
    if n == 0 {
        0
    } else {
        (total / n) as u16
    }
}

/// How many cases have each actual (or each predicted) direction.
pub fn direction_support(results: &[ScoredCase], actual: bool) -> (r: DiagnosticClassCount)
    ensures
        r.up == tally(results@, actual, Direction::Up, false),
        r.range == tally(results@, actual, Direction::Range, false),
        r.down == tally(results@, actual, Direction::Down, false),
{
    DiagnosticClassCount {
        up: count_cases(results, actual, Direction::Up, false),
        down: count_cases(results, actual, Direction::Down, false),
        range: count_cases(results, actual, Direction::Range, false),
    }
}

fn confusion_row(results: &[ScoredCase], actual: Direction) -> (r: DiagnosticClassCount)
    ensures
        r.up == pair_tally(results@, actual, Direction::Up),
        r.range == pair_tally(results@, actual, Direction::Range),
        r.down == pair_tally(results@, actual, Direction::Down),
{
    DiagnosticClassCount {
        up: count_pairs(results, actual, Direction::Up),
        down: count_pairs(results, actual, Direction::Down),
        range: count_pairs(results, actual, Direction::Range),
    }
}

/// Counts of every (actual, predicted) pair of directions.
pub fn confusion_matrix(results: &[ScoredCase]) -> (r: DirectionConfusion)
    ensures
        forall|a: Direction, p: Direction|
            a != Direction::Unresolved && p != Direction::Unresolved ==> #[trigger] confusion_cell(
                r,
                a,
                p,
            ) == pair_tally(results@, a, p),
{
    DirectionConfusion {
        up: confusion_row(results, Direction::Up),
        range: confusion_row(results, Direction::Range),
        down: confusion_row(results, Direction::Down),
    }
}

/// Cell of a confusion matrix; unresolved directions have no cell and read 0.
pub open spec fn confusion_cell(m: DirectionConfusion, actual: Direction, predicted: Direction) -> nat {
    let row = match actual {
        Direction::Up => Some(m.up),
        Direction::Range => Some(m.range),
        Direction::Down => Some(m.down),
        Direction::Unresolved => None,
    };
    match row {
        Some(row) => match predicted {
            Direction::Up => row.up as nat,
            Direction::Range => row.range as nat,
            Direction::Down => row.down as nat,
            Direction::Unresolved => 0,
        },
        None => 0,
    }
}

/// A confusion matrix with every cell zero.
pub fn empty_direction_confusion_matrix() -> (r: DirectionConfusion)
    ensures
        forall|a: Direction, p: Direction| #[trigger] confusion_cell(r, a, p) == 0,
{
    let zero = DiagnosticClassCount { up: 0, down: 0, range: 0 };
    DirectionConfusion { up: zero, range: zero, down: zero }
}

proof fn lemma_row_sums_to_support(results: Seq<ScoredCase>, a: Direction)
    requires
        forall|k: int| 0 <= k < results.len() ==> #[trigger] results[k].predicted
            != Direction::Unresolved,
    ensures
        pair_tally(results, a, Direction::Up) + pair_tally(results, a, Direction::Range)
            + pair_tally(results, a, Direction::Down) == tally(results, true, a, false),
    decreases results.len(),
{
    if results.len() > 0 {
        let rest = results.drop_last();
        assert forall|k: int| 0 <= k < rest.len() implies #[trigger] rest[k].predicted
            != Direction::Unresolved by {
            assert(rest[k] == results[k]);
        }
        assert(results.last() == results[results.len() - 1]);
        lemma_row_sums_to_support(rest, a);
    }
}

/// Each row of the confusion matrix accounts for every case of its actual
/// direction, when every case carries a resolved prediction.
pub proof fn lemma_confusion_rows_match_support(results: Seq<ScoredCase>, a: Direction)
    requires
        a != Direction::Unresolved,
        forall|k: int| 0 <= k < results.len() ==> #[trigger] results[k].predicted
            != Direction::Unresolved,
    ensures
        pair_tally(results, a, Direction::Up) + pair_tally(results, a, Direction::Range)
            + pair_tally(results, a, Direction::Down) == tally(results, true, a, false),
{
    lemma_row_sums_to_support(results, a);
}

/// Every per-direction share is a basis-point value in `0..=10000`.
pub proof fn lemma_share_bounded(results: Seq<ScoredCase>, by_actual: bool, direction: Direction)
    ensures
        share_of(results, by_actual, direction) matches Some(v) ==> v <= 10_000,
{
    lemma_tally_bounds(results, by_actual, direction);
    lemma_ratio_bp_bounded(
        tally(results, by_actual, direction, true) as int,
        tally(results, by_actual, direction, false) as int,
    );
}


pub open spec fn is_sorted_u16(s: Seq<u16>) -> bool {
    forall|i: int, j: int| 0 <= i <= j < s.len() ==> #[trigger] s[i] <= #[trigger] s[j]
}

/// Sorts the values in place, ascending.
fn sort_u16(values: &mut [u16])
    ensures
        is_sorted_u16(final(values)@),
        final(values)@.to_multiset() == old(values)@.to_multiset(),
{
    let n = values.len();
    let mut i: usize = 1;
    if n == 0 {
        return;
    }
    while i < n
        invariant
            n == values@.len(),
            1 <= i <= n,
            forall|a: int, b: int| 0 <= a <= b < i ==> #[trigger] values@[a] <= #[trigger] values@[b],
            values@.to_multiset() == old(values)@.to_multiset(),
        decreases n - i,
    {
        let mut j: usize = i;
        while j > 0 && values[j - 1] > values[j]
            invariant
                n == values@.len(),
                1 <= i < n,
                j <= i,
                forall|a: int, b: int|
                    0 <= a <= b <= i && a != j && b != j ==> #[trigger] values@[a]
                        <= #[trigger] values@[b],
                forall|a: int, b: int|
                    0 <= a < j && j < b <= i ==> #[trigger] values@[a] <= #[trigger] values@[b],
                forall|b: int| j < b <= i ==> values@[j as int] < #[trigger] values@[b],
                values@.to_multiset() == old(values)@.to_multiset(),
            decreases j,
        {
            let ghost before = values@;
            let upper = values[j];
            let lower = values[j - 1];
            values[j] = lower;
            values[j - 1] = upper;
            proof {
                broadcast use vstd::multiset::group_multiset_axioms;
                let mid = before.update(j as int, lower);
                vstd::seq_lib::to_multiset_update(before, j as int, lower);
                vstd::seq_lib::to_multiset_update(mid, j - 1, upper);
                assert(values@ == mid.update(j - 1, upper));
                let m0 = before.to_multiset();
                vstd::seq_lib::to_multiset_contains(before, upper);
                vstd::seq_lib::to_multiset_contains(before, lower);
                assert(before[j as int] == upper);
                assert(m0.count(upper) > 0);
                assert(m0.count(lower) > 0);
                assert forall|x: u16| #[trigger] values@.to_multiset().count(x) == m0.count(x) by {
                    assert(mid[j - 1] == lower);
                }
                assert(values@.to_multiset() =~= before.to_multiset());
            }
            j = j - 1;
        }
        i = i + 1;
    }
}

/// The element at position `len / 2` once sorted (the upper median), and
/// the values are left sorted.
pub fn median_u16(values: &mut [u16]) -> (r: Option<u16>)
    ensures
        is_sorted_u16(final(values)@),
        final(values)@.to_multiset() == old(values)@.to_multiset(),
        r == (if old(values)@.len() == 0 {
            None::<u16>
        } else {
            Some(final(values)@[(old(values)@.len() / 2) as int])
        }),
{
    if values.len() == 0 {
        return None;
    }
    sort_u16(values);
    proof {
        vstd::seq_lib::to_multiset_len(values@);
        vstd::seq_lib::to_multiset_len(old(values)@);
    }
    Some(values[values.len() / 2])
}

#[derive(Debug, Clone, PartialEq, Eq)]
pub struct SplitRules {
    pub test_count_rule: String,
    pub validation_count_rule: String,
    pub strict_temporal_order: bool,
    pub no_lookahead: bool,
    pub preregistration_boundary_ns: i64,
}

#[derive(Debug, Clone, PartialEq, Eq)]
pub struct NeighborSelectionRules {
    pub neighbor_count_rule: String,
    pub minimum_support_rule: String,
    pub maximum_distance_rule: String,
    pub distance_power_selection: String,
    pub availability_mask_exact_match: bool,
}

#[derive(Debug, Clone, PartialEq, Eq)]
pub struct VotingRules {
    pub weight_formula: String,
    pub probabilities: String,
    pub direction_edge_bp: String,
    pub tie_break: String,
    pub first_passage_horizon: String,
}

#[derive(Debug, Clone, PartialEq, Eq)]
pub struct FirstPassageRules {
    pub max_horizon_bars_d1: usize,
    pub max_horizon_bars_w1: usize,
    pub volatility_lookback_bars_d1: usize,
    pub volatility_lookback_bars_w1: usize,
    pub barrier_multiplier: String,
    pub up_down_symmetric: bool,
    pub simultaneous_hit_rule: String,
    pub no_hit_rule: String,
}

#[derive(Debug, Clone, PartialEq, Eq)]
pub struct PublicationGateRules {
    pub requires_positive_brier_skill: bool,
    pub minimum_direction_edge_bp_rule: String,
    pub minimum_reliability_bp_rule: String,
    pub reliability_gate: String,
    pub profile_eligible_for_publication: String,
}

#[derive(Debug, Clone, PartialEq, Eq)]
pub struct DeterminismConfig {
    pub no_randomness: bool,
    pub all_operations_deterministic: bool,
    pub fixed_point_ordering: String,
}

#[derive(Debug, Clone, PartialEq, Eq)]
pub struct CalibrationProcedure {
    pub split_rules: SplitRules,
    pub neighbor_selection: NeighborSelectionRules,
    pub voting: VotingRules,
    pub first_passage: FirstPassageRules,
    pub publication_gates: PublicationGateRules,
}

/// Every deterministic choice that affects calibration results; it is
/// serialized canonically and hashed to give the preregistered protocol hash.
#[derive(Debug, Clone, PartialEq, Eq)]
pub struct CalibrationProtocol {
    pub schema: String,
    pub protocol_id: String,
    pub structural_vector_version: String,
    pub engine_version: String,
    pub calibration_procedure: CalibrationProcedure,
    pub determinism: DeterminismConfig,
}

/// Version of the structural engine whose vectors calibration consumes.
pub const ENGINE_VERSION: &'static str = "prama-protokol-rs/0.3.0@ddb91cad+D_O_v9-financial-adapter-v2+ODCE-v0.1-financial-normalization-v1+K-MEM-K1-tau32";

impl CalibrationProtocol {
    /// The frozen protocol with all current deterministic choices.
    pub fn frozen() -> (r: Self)
        ensures
        r.schema@ == "pramagraph.calibration_protocol.v1"@,
        r.protocol_id@ == RESOLUTION_CALIBRATION_VERSION@,
        r.structural_vector_version@ == STRUCTURAL_VECTOR_VERSION@,
        r.engine_version@ == ENGINE_VERSION@,
        r.calibration_procedure.split_rules.test_count_rule@ == "integer_sqrt(frames.len()).max(1)"@,
        r.calibration_procedure.split_rules.validation_count_rule@ == "integer_sqrt(frames.len()).max(1)"@,
        r.calibration_procedure.split_rules.strict_temporal_order == true,
        r.calibration_procedure.split_rules.no_lookahead == true,
        r.calibration_procedure.split_rules.preregistration_boundary_ns == DEVELOPMENT_DATA_CUTOFF_NS,
        r.calibration_procedure.neighbor_selection.neighbor_count_rule@ == "integer_sqrt(training_samples.len()).max(1)"@,
        r.calibration_procedure.neighbor_selection.minimum_support_rule@ == "integer_log2(training_samples.len()).max(1).min(neighbor_count)"@,
        r.calibration_procedure.neighbor_selection.maximum_distance_rule@ == "max_kth_distance_on_validation"@,
        r.calibration_procedure.neighbor_selection.distance_power_selection@ == "compare_power_1_vs_2_on_validation"@,
        r.calibration_procedure.neighbor_selection.availability_mask_exact_match == true,
        r.calibration_procedure.voting.weight_formula@ == "1 / distance^power"@,
        r.calibration_procedure.voting.probabilities@ == "basis_points_from_weighted_votes"@,
        r.calibration_procedure.voting.direction_edge_bp@ == "top_prob - second_prob"@,
        r.calibration_procedure.voting.tie_break@ == "direction_order_priority"@,
        r.calibration_procedure.voting.first_passage_horizon@ == "weighted_by_vote_weight"@,
        r.calibration_procedure.first_passage.max_horizon_bars_d1 == 10,
        r.calibration_procedure.first_passage.max_horizon_bars_w1 == 8,
        r.calibration_procedure.first_passage.volatility_lookback_bars_d1 == 28,
        r.calibration_procedure.first_passage.volatility_lookback_bars_w1 == 12,
        r.calibration_procedure.first_passage.barrier_multiplier@ == "empirical_symmetric_barrier"@,
        r.calibration_procedure.first_passage.up_down_symmetric == true,
        r.calibration_procedure.first_passage.simultaneous_hit_rule@ == "RANGE"@,
        r.calibration_procedure.first_passage.no_hit_rule@ == "RANGE_AT_MAXIMUM_HORIZON"@,
        r.calibration_procedure.publication_gates.requires_positive_brier_skill == true,
        r.calibration_procedure.publication_gates.minimum_direction_edge_bp_rule@ == "median_on_validation"@,
        r.calibration_procedure.publication_gates.minimum_reliability_bp_rule@ == "wilson_lower_bound_on_validation"@,
        r.calibration_procedure.publication_gates.reliability_gate@ == "per_direction_lower_bound"@,
        r.calibration_procedure.publication_gates.profile_eligible_for_publication@ == "requires_preregistered_protocol_sha256_and_prospective_evidence"@,
        r.determinism.no_randomness == true,
        r.determinism.all_operations_deterministic == true,
        r.determinism.fixed_point_ordering@ == "distance_ascending_then_timestamp_ascending"@,
    {
        CalibrationProtocol {
            schema: "pramagraph.calibration_protocol.v1".to_owned(),
            protocol_id: RESOLUTION_CALIBRATION_VERSION.to_owned(),
            structural_vector_version: STRUCTURAL_VECTOR_VERSION.to_owned(),
            engine_version: ENGINE_VERSION.to_owned(),
            calibration_procedure: CalibrationProcedure {
            split_rules: SplitRules {
                test_count_rule: "integer_sqrt(frames.len()).max(1)".to_owned(),
                validation_count_rule: "integer_sqrt(frames.len()).max(1)".to_owned(),
                strict_temporal_order: true,
                no_lookahead: true,
                preregistration_boundary_ns: DEVELOPMENT_DATA_CUTOFF_NS,
            },
            neighbor_selection: NeighborSelectionRules {
                neighbor_count_rule: "integer_sqrt(training_samples.len()).max(1)".to_owned(),
                minimum_support_rule: "integer_log2(training_samples.len()).max(1).min(neighbor_count)".to_owned(),
                maximum_distance_rule: "max_kth_distance_on_validation".to_owned(),
                distance_power_selection: "compare_power_1_vs_2_on_validation".to_owned(),
                availability_mask_exact_match: true,
            },
            voting: VotingRules {
                weight_formula: "1 / distance^power".to_owned(),
                probabilities: "basis_points_from_weighted_votes".to_owned(),
                direction_edge_bp: "top_prob - second_prob".to_owned(),
                tie_break: "direction_order_priority".to_owned(),
                first_passage_horizon: "weighted_by_vote_weight".to_owned(),
            },
            first_passage: FirstPassageRules {
                max_horizon_bars_d1: 10,
                max_horizon_bars_w1: 8,
                volatility_lookback_bars_d1: 28,
                volatility_lookback_bars_w1: 12,
                barrier_multiplier: "empirical_symmetric_barrier".to_owned(),
                up_down_symmetric: true,
                simultaneous_hit_rule: "RANGE".to_owned(),
                no_hit_rule: "RANGE_AT_MAXIMUM_HORIZON".to_owned(),
            },
            publication_gates: PublicationGateRules {
                requires_positive_brier_skill: true,
                minimum_direction_edge_bp_rule: "median_on_validation".to_owned(),
                minimum_reliability_bp_rule: "wilson_lower_bound_on_validation".to_owned(),
                reliability_gate: "per_direction_lower_bound".to_owned(),
                profile_eligible_for_publication: "requires_preregistered_protocol_sha256_and_prospective_evidence".to_owned(),
            },
            },
            determinism: DeterminismConfig {
                no_randomness: true,
                all_operations_deterministic: true,
                fixed_point_ordering: "distance_ascending_then_timestamp_ascending".to_owned(),
            },
        }
    }
}


/// Feature families of a dynamics variant: each variant adds one family to
/// those of the variant before it.
pub open spec fn spec_variant_families(variant: DynamicsVariant) -> Seq<Seq<char>> {
    let all = seq!["financial_structural_vector_v2 snapshot"@, "delta velocity, acceleration, reversal magnitude"@, "prior-only pressure/momentum/transition z-scores, regime age, momentum-sign persistence, pressure recovery"@, "D1 versus prior closed W1 dispersion, coherence, dispersion change"@];
    all.take(variant_rank(variant) as int + 1)
}

/// Each dynamics variant's feature families begin with those of every
/// variant before it, one more family per step.
pub proof fn lemma_variant_families_nested(a: DynamicsVariant, b: DynamicsVariant)
    requires
        variant_rank(a) <= variant_rank(b),
    ensures
        spec_variant_families(b).len() == spec_variant_families(a).len() + variant_rank(b)
            - variant_rank(a),
        spec_variant_families(b).take(spec_variant_families(a).len() as int)
            == spec_variant_families(a),
{
    assert(spec_variant_families(b).take(spec_variant_families(a).len() as int)
        =~= spec_variant_families(a));
}

pub fn variant_feature_families(variant: DynamicsVariant) -> (r: Vec<String>)
    ensures
        r@.map_values(|f: String| f@) == spec_variant_families(variant),
{
    let rank = variant_rank_of(variant);
    let mut families: Vec<String> = vec!["financial_structural_vector_v2 snapshot".to_owned()];
    if rank >= 1 {
        families.push("delta velocity, acceleration, reversal magnitude".to_owned());
    }
    if rank >= 2 {
        families.push("prior-only pressure/momentum/transition z-scores, regime age, momentum-sign persistence, pressure recovery".to_owned());
    }
    if rank >= 3 {
        families.push("D1 versus prior closed W1 dispersion, coherence, dispersion change".to_owned());
    }
    assert(families@.map_values(|f: String| f@) =~= spec_variant_families(variant));
    families
}

/// Definitions of the derived dynamics features, ordered by feature name.
pub open spec fn spec_dynamics_feature_definitions() -> Seq<(Seq<char>, Seq<char>)> {
    seq![
        ("dynamics.delta_acceleration"@, "delta_velocity[t] - delta_velocity[t-1]"@),
        ("dynamics.delta_reversal_magnitude"@, "min(abs(velocity[t]), abs(velocity[t-1])) when their nonzero signs differ; otherwise 0"@),
        ("dynamics.delta_velocity"@, "authoritative_prama_delta[t] - authoritative_prama_delta[t-1]"@),
        ("dynamics.momentum_sign_streak_bars"@, "consecutive observations sharing the exact sign of delta_velocity"@),
        ("dynamics.momentum_z_prior"@, "z-score of delta_velocity[t] against its strictly-prior expanding distribution"@),
        ("dynamics.pressure_recovery"@, "(1 - lambda[t-1]) - (1 - lambda[t]); positive values denote falling structural pressure"@),
        ("dynamics.pressure_z_prior"@, "z-score of 1 - lambda[t] against the strictly-prior expanding distribution; 0 for a constant prior distribution"@),
        ("dynamics.regime_age_bars"@, "consecutive observations with the current authoritative D_O structural_state"@),
        ("dynamics.transition_intensity_z_prior"@, "z-score of pairwise-available RMS change in financial_structural_vector_v2 against its strictly-prior expanding distribution"@),
        ("multiscale.cross_scale_dispersion_change"@, "d1_w1_dispersion[t] - previous available d1_w1_dispersion"@),
        ("multiscale.d1_w1_coherence"@, "cosine similarity over the same six D1/W1 PRAMA coordinates"@),
        ("multiscale.d1_w1_dispersion"@, "RMS difference over the first six bounded PRAMA v2 coordinates between D1[t] and the latest W1 frame from a strictly earlier ISO week"@),
    ]
}

/// The derived dynamics features and their definitions, in name order.
pub fn dynamics_feature_definitions() -> (r: Vec<(String, String)>)
    ensures
        r@.map_values(|e: (String, String)| (e.0@, e.1@)) == spec_dynamics_feature_definitions(),
{
    let definitions: Vec<(String, String)> = vec![
        ("dynamics.delta_acceleration".to_owned(), "delta_velocity[t] - delta_velocity[t-1]".to_owned()),
        ("dynamics.delta_reversal_magnitude".to_owned(), "min(abs(velocity[t]), abs(velocity[t-1])) when their nonzero signs differ; otherwise 0".to_owned()),
        ("dynamics.delta_velocity".to_owned(), "authoritative_prama_delta[t] - authoritative_prama_delta[t-1]".to_owned()),
        ("dynamics.momentum_sign_streak_bars".to_owned(), "consecutive observations sharing the exact sign of delta_velocity".to_owned()),
        ("dynamics.momentum_z_prior".to_owned(), "z-score of delta_velocity[t] against its strictly-prior expanding distribution".to_owned()),
        ("dynamics.pressure_recovery".to_owned(), "(1 - lambda[t-1]) - (1 - lambda[t]); positive values denote falling structural pressure".to_owned()),
        ("dynamics.pressure_z_prior".to_owned(), "z-score of 1 - lambda[t] against the strictly-prior expanding distribution; 0 for a constant prior distribution".to_owned()),
        ("dynamics.regime_age_bars".to_owned(), "consecutive observations with the current authoritative D_O structural_state".to_owned()),
        ("dynamics.transition_intensity_z_prior".to_owned(), "z-score of pairwise-available RMS change in financial_structural_vector_v2 against its strictly-prior expanding distribution".to_owned()),
        ("multiscale.cross_scale_dispersion_change".to_owned(), "d1_w1_dispersion[t] - previous available d1_w1_dispersion".to_owned()),
        ("multiscale.d1_w1_coherence".to_owned(), "cosine similarity over the same six D1/W1 PRAMA coordinates".to_owned()),
        ("multiscale.d1_w1_dispersion".to_owned(), "RMS difference over the first six bounded PRAMA v2 coordinates between D1[t] and the latest W1 frame from a strictly earlier ISO week".to_owned()),
    ];
    assert(definitions@.map_values(|e: (String, String)| (e.0@, e.1@)) =~= spec_dynamics_feature_definitions());
    definitions
}

/// Where the first passage of a labelled bar ended: at a barrier or at the
/// horizon, or not yet observable.
#[derive(Debug, Clone, Copy, PartialEq, Eq, Structural)]
pub enum OutcomeLabelState {
    Resolved(Direction, usize),
    RightCensored { observed_future_bars: usize },
}

/// The window of bars a label at `index` looks at, as `(end, required_end)`:
/// up to `maximum_horizon_bars` ahead, cut at the last bar. Nothing when the
/// window would be empty.
pub open spec fn window_of(index: int, bars_len: int, maximum_horizon_bars: int) -> Option<(int, int)> {
    let required_end = index + maximum_horizon_bars;
    if required_end > usize::MAX || bars_len == 0 {
        None
    } else {
        let end = if required_end <= bars_len - 1 {
            required_end
        } else {
            bars_len - 1
        };
        if end <= index {
            None
        } else {
            Some((end, required_end))
        }
    }
}

/// The label window of the bar at `index`.
pub fn label_window(index: usize, bars_len: usize, maximum_horizon_bars: usize) -> (r: Option<
    (usize, usize),
>)
    ensures
        match window_of(index as int, bars_len as int, maximum_horizon_bars as int) {
            Some((end, required_end)) => r == Some((end as usize, required_end as usize)),
            None => r is None,
        },
{
    let required_end = match index.checked_add(maximum_horizon_bars) {
        Some(value) => value,
        None => return None,
    };
    let last = match bars_len.checked_sub(1) {
        Some(value) => value,
        None => return None,
    };
    let end = if required_end <= last {
        required_end
    } else {
        last
    };
    if end <= index {
        None
    } else {
        Some((end, required_end))
    }
}

/// The direction a bar's barrier hits give: both barriers at once count as
/// range.
pub open spec fn hit_direction(hit: (bool, bool)) -> Direction {
    if hit.0 && !hit.1 {
        Direction::Up
    } else if !hit.0 && hit.1 {
        Direction::Down
    } else {
        Direction::Range
    }
}

/// The first bar, counted from one, at which a barrier is hit, with the
/// direction it gives.
pub open spec fn first_passage(hits: Seq<(bool, bool)>) -> Option<(Direction, nat)>
    decreases hits.len(),
{
    if hits.len() == 0 {
        None
    } else {
        match first_passage(hits.drop_last()) {
            Some(found) => Some(found),
            None => {
                let last = hits.last();
                if last.0 || last.1 {
                    Some((hit_direction(last), hits.len()))
                } else {
                    None
                }
            },
        }
    }
}

/// The label state of a bar from its window's barrier hits, in bar order:
/// the first hit decides; without one, a complete window is range at the
/// horizon and an incomplete one is right-censored.
pub open spec fn passage_state(
    hits: Seq<(bool, bool)>,
    window_complete: bool,
    maximum_horizon_bars: usize,
) -> OutcomeLabelState {
    match first_passage(hits) {
        Some((direction, bars)) => OutcomeLabelState::Resolved(direction, bars as usize),
        None => if window_complete {
            OutcomeLabelState::Resolved(Direction::Range, maximum_horizon_bars)
        } else {
            OutcomeLabelState::RightCensored { observed_future_bars: hits.len() as usize }
        },
    }
}

/// Labels a bar by first passage, given for each bar of its window whether
/// it reached the upper and the lower barrier.
pub fn first_passage_state(
    barrier_hits: &[(bool, bool)],
    window_complete: bool,
    maximum_horizon_bars: usize,
) -> (r: OutcomeLabelState)
    ensures
        r == passage_state(barrier_hits@, window_complete, maximum_horizon_bars),
{
    let n = barrier_hits.len();
    let mut i: usize = 0;
    while i < n
        invariant
            n == barrier_hits@.len(),
            i <= n,
            first_passage(barrier_hits@.subrange(0, i as int)) is None,
        decreases n - i,
    {
        let prefix = Ghost(barrier_hits@.subrange(0, i + 1));
        assert(prefix@.drop_last() =~= barrier_hits@.subrange(0, i as int));
        let (up, down) = barrier_hits[i];
        if up || down {
            let direction = if up && !down {
                Direction::Up
            } else if !up && down {
                Direction::Down
            } else {
                Direction::Range
            };
            proof {
                lemma_first_passage_prefix(barrier_hits@, i as int + 1);
            }
            return OutcomeLabelState::Resolved(direction, i + 1);
        }
        i = i + 1;
    }
    assert(barrier_hits@.subrange(0, n as int) =~= barrier_hits@);
    if window_complete {
        OutcomeLabelState::Resolved(Direction::Range, maximum_horizon_bars)
    } else {
        OutcomeLabelState::RightCensored { observed_future_bars: n }
    }
}

/// A passage found within a prefix is the passage of the whole.
proof fn lemma_first_passage_prefix(hits: Seq<(bool, bool)>, k: int)
    requires
        0 <= k <= hits.len(),
        first_passage(hits.subrange(0, k)) is Some,
    ensures
        first_passage(hits) == first_passage(hits.subrange(0, k)),
    decreases hits.len() - k,
{
    if k < hits.len() {
        assert(hits.subrange(0, k + 1).drop_last() =~= hits.subrange(0, k));
        lemma_first_passage_prefix(hits, k + 1);
    } else {
        assert(hits.subrange(0, k) =~= hits);
    }
}

/// The direction and first-passage bars of a resolved label; nothing for a
/// right-censored one.
pub fn resolved_label(state: OutcomeLabelState) -> (r: Option<(Direction, usize)>)
    ensures
        match state {
            OutcomeLabelState::Resolved(direction, bars) => r == Some((direction, bars)),
            OutcomeLabelState::RightCensored { .. } => r is None,
        },
{
    match state {
        OutcomeLabelState::Resolved(direction, bars) => Some((direction, bars)),
        OutcomeLabelState::RightCensored { .. } => None,
    }
}

/// How the runtime estimator answered one development-audit query: the
/// query's time and actual direction, the direction it resolved to (none
/// when it did not resolve), and how many neighbours were admissible.
#[derive(Debug, Clone, Copy, PartialEq, Eq, Structural)]
pub struct AuditOutcome {
    pub query_timestamp_ns: i64,
    pub actual: Direction,
    pub winning: Option<Direction>,
    pub admissible_neighbors: usize,
}

/// Whether the runtime estimator reproduces the development audit: counts
/// of resolved and unresolved queries, and the unresolved ones in order.
#[derive(Debug, Clone, PartialEq, Eq)]
pub struct DevelopmentAuditRuntimeParity {
    pub audit_observations: usize,
    pub resolved_observations: usize,
    pub unresolved_observations: usize,
    pub resolved_actual_direction_counts: DiagnosticClassCount,
    pub resolved_predicted_direction_counts: DiagnosticClassCount,
    pub unresolved_actual_direction_counts: DiagnosticClassCount,
    pub resolved_only_confusion_matrix: DirectionConfusion,
    pub unresolved_queries: Vec<UnresolvedAuditObservation>,
}

/// The direction an outcome is counted under: its actual direction
/// (`which == 0` among resolved, `which == 2` among unresolved outcomes) or
/// its resolved direction (`which == 1`).
pub open spec fn counted_direction(o: AuditOutcome, which: int) -> Option<Direction> {
    if which == 0 {
        if o.winning is Some {
            Some(o.actual)
        } else {
            None
        }
    } else if which == 1 {
        o.winning
    } else if o.winning is None {
        Some(o.actual)
    } else {
        None
    }
}

/// Outcomes counted on an axis of `[up, range, down]`.
pub open spec fn axis_count(outcomes: Seq<AuditOutcome>, which: int, axis: usize) -> nat
    decreases outcomes.len(),
{
    if outcomes.len() == 0 {
        0
    } else {
        axis_count(outcomes.drop_last(), which, axis) + match counted_direction(
            outcomes.last(),
            which,
        ) {
            Some(d) => if spec_direction_index(d) == axis {
                1nat
            } else {
                0nat
            },
            None => 0nat,
        }
    }
}

/// Resolved outcomes with the given actual and resolved directions.
pub open spec fn outcome_pairs(outcomes: Seq<AuditOutcome>, actual: Direction, winning: Direction) -> nat
    decreases outcomes.len(),
{
    if outcomes.len() == 0 {
        0
    } else {
        let o = outcomes.last();
        outcome_pairs(outcomes.drop_last(), actual, winning) + if o.actual == actual && o.winning
            == Some(winning) {
            1nat
        } else {
            0nat
        }
    }
}

/// The unresolved queries, in order.
pub open spec fn unresolved_list(
    outcomes: Seq<AuditOutcome>,
    neighbor_count: usize,
    minimum_support: usize,
) -> Seq<UnresolvedAuditObservation>
    decreases outcomes.len(),
{
    if outcomes.len() == 0 {
        Seq::empty()
    } else {
        let o = outcomes.last();
        let earlier = unresolved_list(outcomes.drop_last(), neighbor_count, minimum_support);
        if o.winning is None {
            earlier.push(
                UnresolvedAuditObservation {
                    query_timestamp_ns: o.query_timestamp_ns,
                    actual_direction: o.actual,
                    selected_neighbor_count: if o.admissible_neighbors <= neighbor_count {
                        o.admissible_neighbors
                    } else {
                        neighbor_count
                    },
                    runtime_minimum_support: minimum_support,
                },
            )
        } else {
            earlier
        }
    }
}

/// Resolved outcomes carry resolved directions.
pub open spec fn outcomes_well_formed(outcomes: Seq<AuditOutcome>) -> bool {
    forall|i: int|
        0 <= i < outcomes.len() && (#[trigger] outcomes[i]).winning is Some ==> outcomes[i].actual
            != Direction::Unresolved && outcomes[i].winning != Some(Direction::Unresolved)
}

proof fn lemma_outcome_counts_bounded(outcomes: Seq<AuditOutcome>)
    ensures
        forall|which: int, axis: usize| #[trigger] axis_count(outcomes, which, axis) <= outcomes.len(),
        forall|a: Direction, p: Direction| #[trigger] outcome_pairs(outcomes, a, p) <= outcomes.len(),
        unresolved_list(outcomes, 0, 0).len() <= outcomes.len(),
    decreases outcomes.len(),
{
    if outcomes.len() > 0 {
        let rest = outcomes.drop_last();
        lemma_outcome_counts_bounded(rest);
        assert forall|which: int, axis: usize| #[trigger] axis_count(outcomes, which, axis)
            <= outcomes.len() by {
            assert(axis_count(rest, which, axis) <= rest.len());
        }
        assert forall|a: Direction, p: Direction| #[trigger] outcome_pairs(outcomes, a, p)
            <= outcomes.len() by {
            assert(outcome_pairs(rest, a, p) <= rest.len());
        }
    }
}

proof fn lemma_unresolved_len(outcomes: Seq<AuditOutcome>, nc: usize, ms: usize)
    ensures
        unresolved_list(outcomes, nc, ms).len() <= outcomes.len(),
        unresolved_list(outcomes, nc, ms).len() == unresolved_list(outcomes, 0, 0).len(),
    decreases outcomes.len(),
{
    if outcomes.len() > 0 {
        lemma_unresolved_len(outcomes.drop_last(), nc, ms);
    }
}

fn bump_axis(counts: &mut [usize; 3], direction: Direction)
    requires
        old(counts)@[spec_direction_index(direction) as int] < usize::MAX,
    ensures
        forall|axis: int|
            0 <= axis < 3 ==> final(counts)@[axis] == old(counts)@[axis] + if axis
                == spec_direction_index(direction) {
                1int
            } else {
                0int
            },
{
    let axis = direction_index(direction);
    counts.set(axis, counts[axis] + 1);
}

fn bump_cell(m: &mut DirectionConfusion, actual: Direction, predicted: Direction)
    requires
        actual != Direction::Unresolved,
        predicted != Direction::Unresolved,
        confusion_cell(*old(m), actual, predicted) < usize::MAX,
    ensures
        forall|a: Direction, p: Direction|
            #[trigger] confusion_cell(*final(m), a, p) == confusion_cell(*old(m), a, p) + if a
                == actual && p == predicted {
                1int
            } else {
                0int
            },
{
    let mut row = match actual {
        Direction::Up => m.up,
        Direction::Range => m.range,
        _ => m.down,
    };
    match predicted {
        Direction::Up => row.up = row.up + 1,
        Direction::Range => row.range = row.range + 1,
        _ => row.down = row.down + 1,
    }
    match actual {
        Direction::Up => m.up = row,
        Direction::Range => m.range = row,
        _ => m.down = row,
    }
}

/// Tallies the runtime estimator's answers on the development audit
/// queries. An unresolved query keeps at most `neighbor_count` selected
/// neighbours.
pub fn development_audit_runtime_parity(
    outcomes: &[AuditOutcome],
    neighbor_count: usize,
    minimum_support: usize,
) -> (r: DevelopmentAuditRuntimeParity)
    requires
        outcomes_well_formed(outcomes@),
    ensures
        r.audit_observations == outcomes@.len(),
        r.unresolved_observations == unresolved_list(outcomes@, neighbor_count, minimum_support).len(),
        r.resolved_observations == outcomes@.len() - r.unresolved_observations,
        r.unresolved_queries@ == unresolved_list(outcomes@, neighbor_count, minimum_support),
        r.resolved_actual_direction_counts.up == axis_count(outcomes@, 0, 0),
        r.resolved_actual_direction_counts.range == axis_count(outcomes@, 0, 1),
        r.resolved_actual_direction_counts.down == axis_count(outcomes@, 0, 2),
        r.resolved_predicted_direction_counts.up == axis_count(outcomes@, 1, 0),
        r.resolved_predicted_direction_counts.range == axis_count(outcomes@, 1, 1),
        r.resolved_predicted_direction_counts.down == axis_count(outcomes@, 1, 2),
        r.unresolved_actual_direction_counts.up == axis_count(outcomes@, 2, 0),
        r.unresolved_actual_direction_counts.range == axis_count(outcomes@, 2, 1),
        r.unresolved_actual_direction_counts.down == axis_count(outcomes@, 2, 2),
        forall|a: Direction, p: Direction|
            a != Direction::Unresolved && p != Direction::Unresolved ==> #[trigger] confusion_cell(
                r.resolved_only_confusion_matrix,
                a,
                p,
            ) == outcome_pairs(outcomes@, a, p),
{
    let n = outcomes.len();
    let mut resolved_actual: [usize; 3] = [0, 0, 0];
    let mut resolved_predicted: [usize; 3] = [0, 0, 0];
    let mut unresolved_actual: [usize; 3] = [0, 0, 0];
    let mut confusion = empty_direction_confusion_matrix();
    let mut unresolved_queries: Vec<UnresolvedAuditObservation> = Vec::new();
    let mut i: usize = 0;
    while i < n
        invariant
            n == outcomes@.len(),
            i <= n,
            outcomes_well_formed(outcomes@),
            forall|axis: int|
                0 <= axis < 3 ==> resolved_actual@[axis] == axis_count(
                    outcomes@.subrange(0, i as int),
                    0,
                    axis as usize,
                ),
            forall|axis: int|
                0 <= axis < 3 ==> resolved_predicted@[axis] == axis_count(
                    outcomes@.subrange(0, i as int),
                    1,
                    axis as usize,
                ),
            forall|axis: int|
                0 <= axis < 3 ==> unresolved_actual@[axis] == axis_count(
                    outcomes@.subrange(0, i as int),
                    2,
                    axis as usize,
                ),
            forall|a: Direction, p: Direction|
                a != Direction::Unresolved && p != Direction::Unresolved ==> #[trigger] confusion_cell(
                    confusion,
                    a,
                    p,
                ) == outcome_pairs(outcomes@.subrange(0, i as int), a, p),
            forall|a: Direction, p: Direction|
                (a == Direction::Unresolved || p == Direction::Unresolved) ==> #[trigger] confusion_cell(
                    confusion,
                    a,
                    p,
                ) == 0,
            unresolved_queries@ == unresolved_list(
                outcomes@.subrange(0, i as int),
                neighbor_count,
                minimum_support,
            ),
        decreases n - i,
    {
        let ghost prefix = outcomes@.subrange(0, i as int);
        let ghost next = outcomes@.subrange(0, i + 1);
        assert(next.drop_last() =~= prefix);
        proof {
            lemma_outcome_counts_bounded(prefix);
        }
        let o = outcomes[i];
        assert(o == outcomes@[i as int]);
        match o.winning {
            Some(winning) => {
                assert(axis_count(prefix, 0, spec_direction_index(o.actual)) <= prefix.len());
                assert(axis_count(prefix, 1, spec_direction_index(winning)) <= prefix.len());
                bump_axis(&mut resolved_actual, o.actual);
                bump_axis(&mut resolved_predicted, winning);
                assert(outcome_pairs(prefix, o.actual, winning) <= prefix.len());
                bump_cell(&mut confusion, o.actual, winning);
            },
            None => {
                assert(axis_count(prefix, 2, spec_direction_index(o.actual)) <= prefix.len());
                bump_axis(&mut unresolved_actual, o.actual);
                let selected = if o.admissible_neighbors <= neighbor_count {
                    o.admissible_neighbors
                } else {
                    neighbor_count
                };
                unresolved_queries.push(
                    UnresolvedAuditObservation {
                        query_timestamp_ns: o.query_timestamp_ns,
                        actual_direction: o.actual,
                        selected_neighbor_count: selected,
                        runtime_minimum_support: minimum_support,
                    },
                );
            },
        }
        i = i + 1;
    }
    assert(outcomes@.subrange(0, n as int) =~= outcomes@);
    proof {
        lemma_unresolved_len(outcomes@, neighbor_count, minimum_support);
    }
    let unresolved_observations = unresolved_queries.len();
    DevelopmentAuditRuntimeParity {
        audit_observations: n,
        resolved_observations: n - unresolved_observations,
        unresolved_observations,
        resolved_actual_direction_counts: diagnostic_count(resolved_actual),
        resolved_predicted_direction_counts: diagnostic_count(resolved_predicted),
        unresolved_actual_direction_counts: diagnostic_count(unresolved_actual),
        resolved_only_confusion_matrix: confusion,
        unresolved_queries,
    }
}

/// The evaluation a profile's reliability must have been measured on, given
/// how its parameters were selected and whether it may be published.
pub open spec fn required_reliability_evaluation(p: PublicationPolicy) -> Seq<char> {
    if p.profile_eligible_for_publication {
        "UNTOUCHED_TEMPORAL_TEST"@
    } else if p.parameters_selected_on@ == "PREREGISTERED_PROTOCOL"@ {
        "PREREGISTERED_AWAITING_PROSPECTIVE_EVIDENCE"@
    } else {
        "CONSUMED_DEVELOPMENT_AUDIT"@
    }
}

/// The evidence status a profile's reliability must carry.
pub open spec fn required_evidence_status(p: PublicationPolicy, untouched_test: bool) -> Seq<char> {
    if untouched_test {
        "PREREGISTERED_UNTOUCHED_TEST"@
    } else if p.parameters_selected_on@ == "PREREGISTERED_PROTOCOL"@ {
        "PREREGISTERED_AWAITING_PROSPECTIVE_EVIDENCE"@
    } else {
        "DEVELOPMENT_AUDIT_CONSUMED"@
    }
}

/// The publication and held-out reliability fields of a calibration profile
/// agree with one another: thresholds are basis points, parameters were
/// selected on temporal validation or a preregistered protocol and never on
/// test outcomes, publication requires positive Brier skill and an untouched
/// test, a temporal-validation profile carrying a valid preregistered hash
/// is never promoted to publication, and the evaluation and evidence labels
/// match the case.
pub open spec fn publication_coherent(
    p: PublicationPolicy,
    untouched_test: bool,
    evidence_status: Seq<char>,
    confidence_level_bp: u16,
    reliability_bp: u16,
    reliability_lower_bound_bp: u16,
) -> bool {
    let selected = p.parameters_selected_on@;
    let temporal = selected == "TEMPORAL_VALIDATION"@;
    let preregistered_hash = match p.preregistered_protocol_sha256 {
        Some(h) => is_sha256_text(h@),
        None => false,
    };
    &&& p.minimum_reliability_bp <= 10_000
    &&& p.minimum_direction_edge_bp <= 10_000
    &&& (temporal || selected == "PREREGISTERED_PROTOCOL"@)
    &&& !p.test_outcomes_used_for_parameter_selection
    &&& p.requires_positive_brier_skill
    &&& p.profile_eligible_for_publication == untouched_test
    &&& !(temporal && preregistered_hash && p.profile_eligible_for_publication)
    &&& p.reliability_evaluated_on@ == required_reliability_evaluation(p)
    &&& evidence_status == required_evidence_status(p, untouched_test)
    &&& confidence_level_bp == 9_500
    &&& reliability_lower_bound_bp <= reliability_bp
}

/// Checks the publication and held-out reliability fields of a profile.
pub fn check_publication_coherence(
    p: &PublicationPolicy,
    untouched_test: bool,
    evidence_status: &str,
    confidence_level_bp: u16,
    reliability_bp: u16,
    reliability_lower_bound_bp: u16,
) -> (r: bool)
    ensures
        r == publication_coherent(
            *p,
            untouched_test,
            evidence_status@,
            confidence_level_bp,
            reliability_bp,
            reliability_lower_bound_bp,
        ),
{
    let selected = p.parameters_selected_on.as_str();
    let temporal = text_eq(selected, "TEMPORAL_VALIDATION");
    let preregistered = text_eq(selected, "PREREGISTERED_PROTOCOL");
    let preregistered_hash = match &p.preregistered_protocol_sha256 {
        Some(h) => valid_sha256(h.as_str()),
        None => false,
    };
    let required_evaluation = if p.profile_eligible_for_publication {
        "UNTOUCHED_TEMPORAL_TEST"
    } else if preregistered {
        "PREREGISTERED_AWAITING_PROSPECTIVE_EVIDENCE"
    } else {
        "CONSUMED_DEVELOPMENT_AUDIT"
    };
    let required_status = if untouched_test {
        "PREREGISTERED_UNTOUCHED_TEST"
    } else if preregistered {
        "PREREGISTERED_AWAITING_PROSPECTIVE_EVIDENCE"
    } else {
        "DEVELOPMENT_AUDIT_CONSUMED"
    };
    p.minimum_reliability_bp <= 10_000 && p.minimum_direction_edge_bp <= 10_000 && (temporal
        || preregistered) && !p.test_outcomes_used_for_parameter_selection
        && p.requires_positive_brier_skill && p.profile_eligible_for_publication == untouched_test
        && !(temporal && preregistered_hash && p.profile_eligible_for_publication) && text_eq(
        p.reliability_evaluated_on.as_str(),
        required_evaluation,
    ) && text_eq(evidence_status, required_status) && confidence_level_bp == 9_500
        && reliability_lower_bound_bp <= reliability_bp
}

/// A coherent profile that may be published was evaluated on an untouched
/// temporal test, with preregistered evidence.
pub proof fn lemma_publishable_profile_used_untouched_test(
    p: PublicationPolicy,
    untouched_test: bool,
    evidence_status: Seq<char>,
    confidence_level_bp: u16,
    reliability_bp: u16,
    reliability_lower_bound_bp: u16,
)
    requires
        publication_coherent(
            p,
            untouched_test,
            evidence_status,
            confidence_level_bp,
            reliability_bp,
            reliability_lower_bound_bp,
        ),
        p.profile_eligible_for_publication,
    ensures
        untouched_test,
        p.reliability_evaluated_on@ == "UNTOUCHED_TEMPORAL_TEST"@,
        evidence_status == "PREREGISTERED_UNTOUCHED_TEST"@,
        !p.test_outcomes_used_for_parameter_selection,
{
}

/// A coherent profile whose parameters were selected on temporal
/// validation, and which carries a valid preregistered protocol hash, is
/// never eligible for publication: the hash cannot promote it after the fact.
pub proof fn lemma_temporal_profile_not_retroactively_promoted(
    p: PublicationPolicy,
    untouched_test: bool,
    evidence_status: Seq<char>,
    confidence_level_bp: u16,
    reliability_bp: u16,
    reliability_lower_bound_bp: u16,
)
    requires
        publication_coherent(
            p,
            untouched_test,
            evidence_status,
            confidence_level_bp,
            reliability_bp,
            reliability_lower_bound_bp,
        ),
        p.parameters_selected_on@ == "TEMPORAL_VALIDATION"@,
        p.preregistered_protocol_sha256 matches Some(h) && is_sha256_text(h@),
    ensures
        !p.profile_eligible_for_publication,
        !untouched_test,
        p.reliability_evaluated_on@ == "CONSUMED_DEVELOPMENT_AUDIT"@,
{
    reveal_strlit("TEMPORAL_VALIDATION");
    reveal_strlit("PREREGISTERED_PROTOCOL");
    assert(("TEMPORAL_VALIDATION"@)[0] != ("PREREGISTERED_PROTOCOL"@)[0]);
}

/// A coherent preregistered profile without untouched test evidence stays
/// unpublishable and awaiting prospective evidence.
pub proof fn lemma_preregistered_awaiting_evidence_not_publishable(
    p: PublicationPolicy,
    untouched_test: bool,
    evidence_status: Seq<char>,
    confidence_level_bp: u16,
    reliability_bp: u16,
    reliability_lower_bound_bp: u16,
)
    requires
        publication_coherent(
            p,
            untouched_test,
            evidence_status,
            confidence_level_bp,
            reliability_bp,
            reliability_lower_bound_bp,
        ),
        p.parameters_selected_on@ == "PREREGISTERED_PROTOCOL"@,
        !untouched_test,
    ensures
        !p.profile_eligible_for_publication,
        p.reliability_evaluated_on@ == "PREREGISTERED_AWAITING_PROSPECTIVE_EVIDENCE"@,
        evidence_status == "PREREGISTERED_AWAITING_PROSPECTIVE_EVIDENCE"@,
{
}

/// The integer outcome of a neighbour vote: direction probabilities, the
/// number of neighbours that voted, the winning direction and its margin.
#[derive(Debug, Clone, Copy, PartialEq, Eq, Structural)]
pub struct VoteSummary {
    pub probabilities: ProbabilitiesBp,
    pub support: usize,
    pub winning: Direction,
    pub edge_bp: u16,
}

/// Why a vote is not published, checked in this order: the profile is not
/// eligible, its held-out Brier skill is not positive where that is
/// required, the winning margin is below the minimum, or the winning
/// direction's reliability lower bound is below the minimum.
pub open spec fn gate_reason(
    p: PublicationPolicy,
    vote: VoteSummary,
    reliability_bp: u16,
    brier_skill_not_positive: bool,
) -> Option<Seq<char>> {
    if !p.profile_eligible_for_publication {
        if p.parameters_selected_on@ == "PREREGISTERED_PROTOCOL"@ {
            Some("PREREGISTERED_AWAITING_PROSPECTIVE_EVIDENCE"@)
        } else {
            Some("CALIBRATION_EVIDENCE_NOT_PREREGISTERED"@)
        }
    } else if p.requires_positive_brier_skill && brier_skill_not_positive {
        Some("HELD_OUT_PROBABILITY_SKILL_NOT_POSITIVE"@)
    } else if vote.edge_bp < p.minimum_direction_edge_bp {
        Some("CALIBRATED_DIRECTION_EDGE_NOT_MET"@)
    } else if reliability_bp < p.minimum_reliability_bp {
        Some("HELD_OUT_RELIABILITY_NOT_MET"@)
    } else {
        None
    }
}

/// A resolution that publishes no direction, for the given support and reason.
pub open spec fn is_unresolved(
    r: DirectionalResolution,
    support: int,
    reason: Seq<char>,
) -> bool {
    &&& r.direction == Direction::Unresolved
    &&& r.probabilities_bp.is_none()
    &&& r.horizon.is_none()
    &&& r.reliability_bp.is_none()
    &&& r.sample_support == support
    &&& r.publication_reason@ == reason
}

/// What `publish_resolution` answers for a vote.
pub open spec fn published_from(
    r: DirectionalResolution,
    publication: PublicationPolicy,
    scope: CalibrationScope,
    profile_sha256: String,
    vote: Option<VoteSummary>,
    direction_lower_bound_bp: Option<u16>,
    overall_lower_bound_bp: u16,
    brier_skill_not_positive: bool,
    horizon: Option<Horizon>,
) -> bool {
    &&& r.calibration_scope == scope
    &&& r.profile_sha256 == profile_sha256
    &&& match vote {
        None => is_unresolved(r, 0, "INSUFFICIENT_MATCHED_SUPPORT"@),
        Some(v) => {
            let reliability = match direction_lower_bound_bp {
                Some(b) => b,
                None => overall_lower_bound_bp,
            };
            match gate_reason(publication, v, reliability, brier_skill_not_positive) {
                Some(reason) => is_unresolved(r, v.support as int, reason),
                None => {
                    &&& r.direction == v.winning
                    &&& r.probabilities_bp == Some(v.probabilities)
                    &&& r.horizon == horizon
                    &&& r.reliability_bp == Some(reliability)
                    &&& r.sample_support == v.support
                    &&& r.publication_reason@ == "CALIBRATED_EVIDENCE_SATISFIED"@
                },
            }
        },
    }
}

/// Turns the outcome of a neighbour vote into the published resolution. The
/// reliability of the winning direction is its own held-out lower bound
/// when the profile has one, else the profile's overall lower bound.
pub fn publish_resolution(
    publication: &PublicationPolicy,
    scope: CalibrationScope,
    profile_sha256: String,
    vote: Option<VoteSummary>,
    direction_lower_bound_bp: Option<u16>,
    overall_lower_bound_bp: u16,
    brier_skill_not_positive: bool,
    horizon: Option<Horizon>,
) -> (r: DirectionalResolution)
    ensures
        published_from(
            r,
            *publication,
            scope,
            profile_sha256,
            vote,
            direction_lower_bound_bp,
            overall_lower_bound_bp,
            brier_skill_not_positive,
            horizon,
        ),
{
    let v = match vote {
        None => {
            return unresolved(scope, profile_sha256, 0, "INSUFFICIENT_MATCHED_SUPPORT");
        },
        Some(v) => v,
    };
    let reliability = match direction_lower_bound_bp {
        Some(b) => b,
        None => overall_lower_bound_bp,
    };
    if !publication.profile_eligible_for_publication {
        let reason = if text_eq(publication.parameters_selected_on.as_str(), "PREREGISTERED_PROTOCOL") {
            "PREREGISTERED_AWAITING_PROSPECTIVE_EVIDENCE"
        } else {
            "CALIBRATION_EVIDENCE_NOT_PREREGISTERED"
        };
        return unresolved(scope, profile_sha256, v.support, reason);
    }
    if publication.requires_positive_brier_skill && brier_skill_not_positive {
        return unresolved(scope, profile_sha256, v.support, "HELD_OUT_PROBABILITY_SKILL_NOT_POSITIVE");
    }
    if v.edge_bp < publication.minimum_direction_edge_bp {
        return unresolved(scope, profile_sha256, v.support, "CALIBRATED_DIRECTION_EDGE_NOT_MET");
    }
    if reliability < publication.minimum_reliability_bp {
        return unresolved(scope, profile_sha256, v.support, "HELD_OUT_RELIABILITY_NOT_MET");
    }
    DirectionalResolution {
        direction: v.winning,
        probabilities_bp: Some(v.probabilities),
        horizon,
        reliability_bp: Some(reliability),
        sample_support: v.support as u64,
        calibration_scope: scope,
        profile_sha256,
        publication_reason: "CALIBRATED_EVIDENCE_SATISFIED".to_owned(),
    }
}

/// A published direction comes from an eligible profile, with positive
/// held-out skill where that is required, a margin of at least the minimum
/// edge, and a reliability lower bound of at least the minimum.
pub proof fn lemma_published_direction_meets_gates(
    p: PublicationPolicy,
    vote: VoteSummary,
    reliability_bp: u16,
    brier_skill_not_positive: bool,
)
    requires
        gate_reason(p, vote, reliability_bp, brier_skill_not_positive) is None,
    ensures
        p.profile_eligible_for_publication,
        p.requires_positive_brier_skill ==> !brier_skill_not_positive,
        vote.edge_bp >= p.minimum_direction_edge_bp,
        reliability_bp >= p.minimum_reliability_bp,
{
}

/// A published resolution is either unresolved, with no probabilities,
/// horizon or reliability, or resolved only from an eligible profile, with
/// the vote's probabilities (so they sum to 10000 basis points when the
/// vote's do), a reliability at least the minimum, and the reason
/// `CALIBRATED_EVIDENCE_SATISFIED`. This holds for votes whose winner is a
/// direction and whose probabilities sum to 10000.
pub proof fn lemma_published_resolution_is_calibrated(
    r: DirectionalResolution,
    publication: PublicationPolicy,
    scope: CalibrationScope,
    profile_sha256: String,
    vote: Option<VoteSummary>,
    direction_lower_bound_bp: Option<u16>,
    overall_lower_bound_bp: u16,
    brier_skill_not_positive: bool,
    horizon: Option<Horizon>,
)
    requires
        published_from(
            r,
            publication,
            scope,
            profile_sha256,
            vote,
            direction_lower_bound_bp,
            overall_lower_bound_bp,
            brier_skill_not_positive,
            horizon,
        ),
        vote matches Some(v) ==> v.winning != Direction::Unresolved && v.probabilities.sums_to_one(),
    ensures
        r.profile_sha256 == profile_sha256,
        r.direction == Direction::Unresolved ==> r.probabilities_bp is None && r.horizon is None
            && r.reliability_bp is None,
        r.direction != Direction::Unresolved ==> {
            &&& publication.profile_eligible_for_publication
            &&& r.probabilities_bp matches Some(p) && p.sums_to_one()
            &&& r.reliability_bp matches Some(b) && b >= publication.minimum_reliability_bp
            &&& r.publication_reason@ == "CALIBRATED_EVIDENCE_SATISFIED"@
        },
{
    if let Some(v) = vote {
        let reliability = match direction_lower_bound_bp {
            Some(b) => b,
            None => overall_lower_bound_bp,
        };
        if gate_reason(publication, v, reliability, brier_skill_not_positive) is None {
            lemma_published_direction_meets_gates(publication, v, reliability, brier_skill_not_positive);
        }
    }
}

/// A candidate, given as (observation time, label maturity time), may serve
/// a query at `query_timestamp_ns` only when both lie strictly before it.
pub open spec fn is_causal_candidate(candidate: (i64, i64), query_timestamp_ns: i64) -> bool {
    candidate.0 < query_timestamp_ns && candidate.1 < query_timestamp_ns
}

/// The positions, in order, of the candidates that may serve a query.
pub open spec fn causal_positions(candidates: Seq<(i64, i64)>, query_timestamp_ns: i64) -> Seq<usize>
    decreases candidates.len(),
{
    if candidates.len() == 0 {
        Seq::empty()
    } else {
        let earlier = causal_positions(candidates.drop_last(), query_timestamp_ns);
        if is_causal_candidate(candidates.last(), query_timestamp_ns) {
            earlier.push((candidates.len() - 1) as usize)
        } else {
            earlier
        }
    }
}

/// The walk-forward library of a query: the candidates observed, and whose
/// labels matured, strictly before it.
pub fn causal_library_positions(candidates: &[(i64, i64)], query_timestamp_ns: i64) -> (r: Vec<usize>)
    ensures
        r@ == causal_positions(candidates@, query_timestamp_ns),
{
    let n = candidates.len();
    let mut out: Vec<usize> = Vec::new();
    let mut i: usize = 0;
    while i < n
        invariant
            n == candidates@.len(),
            i <= n,
            out@ == causal_positions(candidates@.subrange(0, i as int), query_timestamp_ns),
        decreases n - i,
    {
        let prefix = Ghost(candidates@.subrange(0, i + 1));
        assert(prefix@.drop_last() =~= candidates@.subrange(0, i as int));
        let (observed, matured) = candidates[i];
        if observed < query_timestamp_ns && matured < query_timestamp_ns {
            out.push(i);
        }
        i = i + 1;
    }
    assert(candidates@.subrange(0, n as int) =~= candidates@);
    out
}

/// No lookahead: every position in a query's library names a candidate
/// observed and matured strictly before the query, positions increase, and
/// every such candidate is included.
pub proof fn lemma_causal_library_has_no_lookahead(candidates: Seq<(i64, i64)>, query_timestamp_ns: i64)
    requires
        candidates.len() <= usize::MAX,
    ensures
        forall|k: int|
            0 <= k < causal_positions(candidates, query_timestamp_ns).len() ==> {
                let p = #[trigger] causal_positions(candidates, query_timestamp_ns)[k];
                p < candidates.len() && is_causal_candidate(candidates[p as int], query_timestamp_ns)
            },
        forall|a: int, b: int|
            0 <= a < b < causal_positions(candidates, query_timestamp_ns).len() ==> #[trigger] causal_positions(
                candidates,
                query_timestamp_ns,
            )[a] < #[trigger] causal_positions(candidates, query_timestamp_ns)[b],
        forall|j: int|
            0 <= j < candidates.len() && is_causal_candidate(#[trigger] candidates[j], query_timestamp_ns)
                ==> causal_positions(candidates, query_timestamp_ns).contains(j as usize),
    decreases candidates.len(),
{
    if candidates.len() > 0 {
        let n = candidates.len();
        let rest = candidates.drop_last();
        lemma_causal_library_has_no_lookahead(rest, query_timestamp_ns);
        let earlier = causal_positions(rest, query_timestamp_ns);
        let all = causal_positions(candidates, query_timestamp_ns);
        let pushed = is_causal_candidate(candidates.last(), query_timestamp_ns);
        if pushed {
            assert(all == earlier.push((n - 1) as usize));
        } else {
            assert(all == earlier);
        }
        assert forall|k: int| 0 <= k < all.len() implies {
            let p = #[trigger] all[k];
            p < candidates.len() && is_causal_candidate(candidates[p as int], query_timestamp_ns)
        } by {
            if k < earlier.len() {
                let p = earlier[k];
                assert(all[k] == p);
                assert(p < rest.len() && is_causal_candidate(rest[p as int], query_timestamp_ns));
                assert(rest[p as int] == candidates[p as int]);
            } else {
                assert(all[k] == (n - 1) as usize);
            }
        }
        assert forall|a: int, b: int| 0 <= a < b < all.len() implies #[trigger] all[a] < #[trigger] all[b] by {
            if b < earlier.len() {
                assert(all[a] == earlier[a] && all[b] == earlier[b]);
                assert(earlier[a] < earlier[b]);
            } else {
                assert(all[a] == earlier[a]);
                assert(earlier[a] < rest.len());
                assert(all[b] == (n - 1) as usize);
            }
        }
        assert forall|j: int|
            0 <= j < candidates.len() && is_causal_candidate(#[trigger] candidates[j], query_timestamp_ns)
                implies all.contains(j as usize) by {
            if j < rest.len() {
                assert(rest[j] == candidates[j]);
                assert(is_causal_candidate(rest[j], query_timestamp_ns));
                assert(earlier.contains(j as usize));
                let k = choose|k: int| 0 <= k < earlier.len() && earlier[k] == j as usize;
                assert(all[k] == j as usize);
            } else {
                assert(all[all.len() - 1] == j as usize);
            }
        }
    }
}

/// The positions, in order, of the samples whose availability mask equals
/// the query's exactly: only those may be a query's neighbours.
pub open spec fn same_mask_positions(query: Seq<bool>, masks: Seq<Seq<bool>>) -> Seq<usize>
    decreases masks.len(),
{
    if masks.len() == 0 {
        Seq::empty()
    } else {
        let earlier = same_mask_positions(query, masks.drop_last());
        if masks.last() == query {
            earlier.push((masks.len() - 1) as usize)
        } else {
            earlier
        }
    }
}

/// The masks of the samples.
pub open spec fn masks_view(masks: Seq<Vec<bool>>) -> Seq<Seq<bool>> {
    Seq::new(masks.len(), |i: int| masks[i]@)
}

fn masks_equal(a: &Vec<bool>, b: &Vec<bool>) -> (r: bool)
    ensures
        r == (a@ == b@),
{
    if a.len() != b.len() {
        return false;
    }
    let mut i: usize = 0;
    while i < a.len()
        invariant
            a@.len() == b@.len(),
            i <= a@.len(),
            forall|k: int| 0 <= k < i ==> a@[k] == b@[k],
        decreases a@.len() - i,
    {
        if a[i] != b[i] {
            return false;
        }
        i = i + 1;
    }
    assert(a@ =~= b@);
    true
}

/// The samples that may be a query's neighbours: those whose availability
/// mask equals the query's exactly, by position in order.
pub fn exact_mask_candidates(query_mask: &Vec<bool>, sample_masks: &[Vec<bool>]) -> (r: Vec<usize>)
    ensures
        r@ == same_mask_positions(query_mask@, masks_view(sample_masks@)),
{
    let mut out: Vec<usize> = Vec::new();
    let mut i: usize = 0;
    while i < sample_masks.len()
        invariant
            i <= sample_masks@.len(),
            out@ == same_mask_positions(query_mask@, masks_view(sample_masks@).subrange(0, i as int)),
        decreases sample_masks@.len() - i,
    {
        proof {
            let pre = masks_view(sample_masks@).subrange(0, i + 1);
            assert(pre.drop_last() =~= masks_view(sample_masks@).subrange(0, i as int));
            assert(pre.last() == sample_masks@[i as int]@);
        }
        if masks_equal(&sample_masks[i], query_mask) {
            out.push(i);
        }
        i = i + 1;
    }
    assert(masks_view(sample_masks@).subrange(0, i as int) =~= masks_view(sample_masks@));
    out
}

/// Balanced accuracy is the mean recall over the actual directions that
/// occur, rounded down: with `k` of the three directions occurring and
/// their recalls summing to `s`, the result `b` has `b * k <= s < (b + 1) *
/// k`; when every occurring direction has the same recall, that recall is
/// the result; and it is 0 when no direction occurs.
pub proof fn lemma_balanced_accuracy_is_mean_recall(results: Seq<ScoredCase>)
    ensures
        ({
            let recall = DirectionBp {
                up: share_of(results, true, Direction::Up),
                range: share_of(results, true, Direction::Range),
                down: share_of(results, true, Direction::Down),
            };
            let b = spec_balanced_accuracy(recall) as int;
            let occurring = seq![recall.up, recall.range, recall.down].filter(
                |v: Option<u16>| v is Some,
            );
            let k = occurring.len() as int;
            let sum = recall_sum(recall);
            &&& k == 0 ==> b == 0
            &&& k > 0 ==> b * k <= sum < (b + 1) * k
            &&& forall|same: u16|
                k > 0 && (recall.up is Some ==> recall.up == Some(same)) && (recall.range is Some
                    ==> recall.range == Some(same)) && (recall.down is Some ==> recall.down == Some(
                    same,
                )) ==> #[trigger] spec_balanced_accuracy(recall) == same
        }),
{
    let recall = DirectionBp {
        up: share_of(results, true, Direction::Up),
        range: share_of(results, true, Direction::Range),
        down: share_of(results, true, Direction::Down),
    };
    lemma_mean_of_present(recall);
}

/// The sum of the recalls that exist.
pub open spec fn recall_sum(recall: DirectionBp) -> int {
    (match recall.up {
        Some(v) => v as int,
        None => 0,
    }) + (match recall.range {
        Some(v) => v as int,
        None => 0,
    }) + (match recall.down {
        Some(v) => v as int,
        None => 0,
    })
}

proof fn lemma_mean_of_present(recall: DirectionBp)
    ensures
        ({
            let b = spec_balanced_accuracy(recall) as int;
            let occurring = seq![recall.up, recall.range, recall.down].filter(
                |v: Option<u16>| v is Some,
            );
            let k = occurring.len() as int;
            let sum = recall_sum(recall);
            &&& k == 0 ==> b == 0
            &&& k > 0 ==> b * k <= sum < (b + 1) * k
            &&& forall|same: u16|
                k > 0 && (recall.up is Some ==> recall.up == Some(same)) && (recall.range is Some
                    ==> recall.range == Some(same)) && (recall.down is Some ==> recall.down == Some(
                    same,
                )) ==> #[trigger] spec_balanced_accuracy(recall) == same
        }),
{
    let all = seq![recall.up, recall.range, recall.down];
    let pred = |v: Option<u16>| v is Some;
    reveal_with_fuel(Seq::filter, 4);
    assert(all.drop_last().drop_last().drop_last() =~= Seq::<Option<u16>>::empty());
    let k = all.filter(pred).len() as int;
    assert(k == (if recall.up is Some { 1int } else { 0 }) + (if recall.range is Some { 1int } else { 0 }) + (if recall.down is Some { 1int } else { 0 })) by {
        assert(all.drop_last().drop_last() =~= seq![recall.up]);
        assert(all.drop_last() =~= seq![recall.up, recall.range]);
    }
    let sum = recall_sum(recall);
    assert(sum <= k * 65535);
    if k == 1 {
        assert((sum / 1) * 1 <= sum < (sum / 1 + 1) * 1);
    } else if k == 2 {
        assert((sum / 2) * 2 <= sum < (sum / 2 + 1) * 2);
    } else if k == 3 {
        assert((sum / 3) * 3 <= sum < (sum / 3 + 1) * 3);
    }
}

} // verus!
