//! Identities of the nested experimental dynamics vector families.

use vstd::prelude::*;
use crate::historical::{iso_week, iso_week_of};

verus! {

pub const DYNAMICS_EXPERIMENT_ID: &'static str = "financial_dynamics_ablation_v1";

/// The four nested vector families, each extending the one before it.
#[derive(Debug, Clone, Copy, PartialEq, Eq, PartialOrd, Ord, Hash, Structural)]
pub enum DynamicsVariant {
    A,
    B,
    C,
    D,
}

/// Position of a variant in the nesting `A < B < C < D`.
pub open spec fn variant_rank(variant: DynamicsVariant) -> nat {
    match variant {
        DynamicsVariant::A => 0,
        DynamicsVariant::B => 1,
        DynamicsVariant::C => 2,
        DynamicsVariant::D => 3,
    }
}

pub fn variant_rank_of(variant: DynamicsVariant) -> (r: u8)
    ensures
        r == variant_rank(variant),
{
    match variant {
        DynamicsVariant::A => 0,
        DynamicsVariant::B => 1,
        DynamicsVariant::C => 2,
        DynamicsVariant::D => 3,
    }
}

impl DynamicsVariant {
    /// All variants in nesting order.
    pub fn all() -> (r: [DynamicsVariant; 4])
        ensures
            r@ == seq![DynamicsVariant::A, DynamicsVariant::B, DynamicsVariant::C, DynamicsVariant::D],
    {
        let r = [DynamicsVariant::A, DynamicsVariant::B, DynamicsVariant::C, DynamicsVariant::D];
        assert(r@ =~= seq![DynamicsVariant::A, DynamicsVariant::B, DynamicsVariant::C, DynamicsVariant::D]);
        r
    }

    pub fn label(self) -> (r: &'static str)
        ensures
            r@ == variant_label(self)@,
    {
        variant_label(self)
    }
}

#[verifier::allow_in_spec]
pub fn variant_label(variant: DynamicsVariant) -> &'static str
    returns
        (match variant {
            DynamicsVariant::A => "A_SNAPSHOT",
            DynamicsVariant::B => "B_TEMPORAL_DERIVATIVES",
            DynamicsVariant::C => "C_STATISTICAL_DYNAMICS",
            DynamicsVariant::D => "D_MULTISCALE_DYNAMICS",
        }),
{
    match variant {
        DynamicsVariant::A => "A_SNAPSHOT",
        DynamicsVariant::B => "B_TEMPORAL_DERIVATIVES",
        DynamicsVariant::C => "C_STATISTICAL_DYNAMICS",
        DynamicsVariant::D => "D_MULTISCALE_DYNAMICS",
    }
}

#[derive(Debug, Clone, Copy, PartialEq, Eq, Structural)]
pub enum DynamicsError {
    Empty,
    NonIncreasingTimestamps,
    DimensionMismatch,
    NonFinite,
}

/// Week `a` comes before week `b`.
pub open spec fn week_before(a: (i32, u32), b: (i32, u32)) -> bool {
    a.0 < b.0 || (a.0 == b.0 && a.1 < b.1)
}

/// The last week, by position, strictly before `daily_week`.
pub open spec fn is_latest_prior(weeks: Seq<(i32, u32)>, daily_week: (i32, u32), r: Option<usize>) -> bool {
    match r {
        Some(k) => {
            &&& k < weeks.len()
            &&& week_before(weeks[k as int], daily_week)
            &&& forall|j: int| k < j < weeks.len() ==> !week_before(#[trigger] weeks[j], daily_week)
        },
        None => forall|j: int| 0 <= j < weeks.len() ==> !week_before(#[trigger] weeks[j], daily_week),
    }
}

/// Finds the last of `weeks` that is strictly before `daily_week`.
pub fn latest_prior_week_index(daily_week: (i32, u32), weeks: &[(i32, u32)]) -> (r: Option<usize>)
    ensures
        is_latest_prior(weeks@, daily_week, r),
{
    let mut i: usize = weeks.len();
    while i > 0
        invariant
            i <= weeks@.len(),
            forall|j: int| i <= j < weeks@.len() ==> !week_before(#[trigger] weeks@[j], daily_week),
        decreases i,
    {
        let week = weeks[i - 1];
        if week.0 < daily_week.0 || (week.0 == daily_week.0 && week.1 < daily_week.1) {
            return Some(i - 1);
        }
        i = i - 1;
    }
    None
}

/// The last weekly frame, by position, whose ISO week is strictly before the
/// daily frame's week: what a daily frame may be compared with without
/// looking at its own, unfinished week.
pub fn latest_strictly_prior_week(daily_timestamp_ns: i64, weekly_timestamps: &[i64]) -> (r: Option<
    usize,
>)
    ensures
        is_latest_prior(
            weekly_timestamps@.map_values(|t: i64| iso_week_of(t)),
            iso_week_of(daily_timestamp_ns),
            r,
        ),
{
    let daily_week = iso_week(daily_timestamp_ns);
    let n = weekly_timestamps.len();
    let mut weeks: Vec<(i32, u32)> = Vec::new();
    let mut i: usize = 0;
    while i < n
        invariant
            n == weekly_timestamps@.len(),
            i <= n,
            weeks@ =~= weekly_timestamps@.subrange(0, i as int).map_values(|t: i64| iso_week_of(t)),
        decreases n - i,
    {
        weeks.push(iso_week(weekly_timestamps[i]));
        i = i + 1;
    }
    assert(weekly_timestamps@.subrange(0, n as int) =~= weekly_timestamps@);
    latest_prior_week_index(daily_week, weeks.as_slice())
}

/// What frame validation reads of a structural frame: its time and the
/// lengths of its vector's names, values and availability mask.
#[derive(Debug, Clone, Copy, PartialEq, Eq, Structural)]
pub struct FrameShape {
    pub timestamp_ns: i64,
    pub names: usize,
    pub values: usize,
    pub availability_mask: usize,
}

/// Frame `i` opens strictly before frame `i + 1`.
pub open spec fn frame_step_increases(frames: Seq<FrameShape>, i: int) -> bool {
    frames[i].timestamp_ns < frames[i + 1].timestamp_ns
}

/// Frame `i` has the first frame's dimension in names, values and mask.
pub open spec fn frame_has_dimension(frames: Seq<FrameShape>, i: int) -> bool {
    let d = frames[0].names;
    frames[i].names == d && frames[i].values == d && frames[i].availability_mask == d
}

/// The first problem of a frame series: none at all, times that do not
/// increase, or vectors of differing dimension.
pub open spec fn frames_problem(frames: Seq<FrameShape>) -> Option<DynamicsError> {
    if frames.len() == 0 {
        Some(DynamicsError::Empty)
    } else if exists|i: int| 0 <= i && i + 1 < frames.len() && !#[trigger] frame_step_increases(frames, i) {
        Some(DynamicsError::NonIncreasingTimestamps)
    } else if exists|i: int| 0 <= i < frames.len() && !#[trigger] frame_has_dimension(frames, i) {
        Some(DynamicsError::DimensionMismatch)
    } else {
        None
    }
}

/// Checks that structural frames are present, strictly increasing in time
/// and of one dimension.
pub fn validate_frames(frames: &[FrameShape]) -> (r: Result<(), DynamicsError>)
    ensures
        match frames_problem(frames@) {
            Some(e) => r == Err::<(), DynamicsError>(e),
            None => r is Ok,
        },
{
    let n = frames.len();
    if n == 0 {
        return Err(DynamicsError::Empty);
    }
    let mut i: usize = 0;
    while i + 1 < n
        invariant
            n == frames@.len(),
            n > 0,
            i + 1 <= n,
            forall|k: int| 0 <= k < i ==> #[trigger] frame_step_increases(frames@, k),
        decreases n - i,
    {
        if frames[i].timestamp_ns >= frames[i + 1].timestamp_ns {
            assert(!frame_step_increases(frames@, i as int));
            return Err(DynamicsError::NonIncreasingTimestamps);
        }
        i = i + 1;
    }
    let dimension = frames[0].names;
    let mut j: usize = 0;
    while j < n
        invariant
            n == frames@.len(),
            n > 0,
            j <= n,
            dimension == frames@[0].names,
            forall|k: int| 0 <= k && k + 1 < n ==> #[trigger] frame_step_increases(frames@, k),
            forall|k: int| 0 <= k < j ==> #[trigger] frame_has_dimension(frames@, k),
        decreases n - j,
    {
        let frame = frames[j];
        if frame.names != dimension || frame.values != dimension || frame.availability_mask != dimension {
            assert(!frame_has_dimension(frames@, j as int));
            return Err(DynamicsError::DimensionMismatch);
        }
        j = j + 1;
    }
    Ok(())
}

} // verus!
