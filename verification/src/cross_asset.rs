//! Cross-asset alignment: pairing two instruments' structural frames in
//! time, and whether their structural states agree.

use vstd::prelude::*;
use crate::historical::DAY_NS;
use crate::text::text_eq;

verus! {

/// Where a cross-asset relation's inputs came from.
#[derive(Debug, Clone, PartialEq, Eq)]
pub struct CrossAssetProvenance {
    pub primary_vector_sha256: String,
    pub reference_vector_sha256: String,
    pub structural_engine_version: String,
    pub structural_vector_version: String,
    pub computed_at_ns: i64,
}

/// How frames of two instruments are paired.
#[derive(Debug, Clone, PartialEq, Eq)]
pub struct AlignmentConfig {
    /// Minimum aligned observations required.
    pub min_aligned_observations: usize,
    /// Maximum gap, in nanoseconds, between two paired frames.
    pub max_temporal_gap_ns: i64,
}

impl Default for AlignmentConfig {
    /// Thirty aligned observations, at most one day apart.
    fn default() -> (r: Self)
        ensures
            r.min_aligned_observations == 30,
            r.max_temporal_gap_ns == DAY_NS,
    {
        AlignmentConfig { min_aligned_observations: 30, max_temporal_gap_ns: DAY_NS }
    }
}

/// What the alignment reads of a structural frame: its time, whether the
/// component under comparison is valid, and that component's state.
#[derive(Debug, PartialEq, Eq)]
pub struct FrameReading {
    pub timestamp_ns: i64,
    pub valid: bool,
    pub state: String,
}

impl Clone for FrameReading {
    fn clone(&self) -> (r: Self)
        ensures
            r == *self,
    {
        FrameReading { timestamp_ns: self.timestamp_ns, valid: self.valid, state: self.state.clone() }
    }
}

/// The pairs formed by walking both series in time order from `i` and `j`:
/// frames within `max_gap` of each other pair up; otherwise the earlier one
/// is passed over.
pub open spec fn aligned_from(
    primary: Seq<FrameReading>,
    reference: Seq<FrameReading>,
    max_gap: int,
    i: nat,
    j: nat,
) -> Seq<(FrameReading, FrameReading)>
    decreases primary.len() + reference.len() - i - j,
{
    if i >= primary.len() || j >= reference.len() {
        Seq::empty()
    } else {
        let p = primary[i as int].timestamp_ns as int;
        let r = reference[j as int].timestamp_ns as int;
        let gap = if p >= r {
            p - r
        } else {
            r - p
        };
        if gap <= max_gap {
            seq![(primary[i as int], reference[j as int])] + aligned_from(
                primary,
                reference,
                max_gap,
                i + 1,
                j + 1,
            )
        } else if p < r {
            aligned_from(primary, reference, max_gap, i + 1, j)
        } else {
            aligned_from(primary, reference, max_gap, i, j + 1)
        }
    }
}

/// Pairs frames of two time-ordered series whose times differ by at most
/// `max_gap_ns`.
pub fn align_frames_by_timestamp(
    primary: &[FrameReading],
    reference: &[FrameReading],
    max_gap_ns: i64,
) -> (r: Vec<(FrameReading, FrameReading)>)
    ensures
        r@ == aligned_from(primary@, reference@, max_gap_ns as int, 0, 0),
{
    let mut aligned: Vec<(FrameReading, FrameReading)> = Vec::new();
    let mut i: usize = 0;
    let mut j: usize = 0;
    while i < primary.len() && j < reference.len()
        invariant
            i <= primary@.len(),
            j <= reference@.len(),
            aligned@ + aligned_from(primary@, reference@, max_gap_ns as int, i as nat, j as nat)
                == aligned_from(primary@, reference@, max_gap_ns as int, 0, 0),
        decreases primary@.len() + reference@.len() - i - j,
    {
        let p_ts = primary[i].timestamp_ns;
        let r_ts = reference[j].timestamp_ns;
        let difference = p_ts as i128 - r_ts as i128;
        let gap = if difference < 0 {
            -difference
        } else {
            difference
        };
        let ghost rest = aligned_from(primary@, reference@, max_gap_ns as int, i as nat, j as nat);
        if gap <= max_gap_ns as i128 {
            let pair = (primary[i].clone(), reference[j].clone());
            let ghost before = aligned@;
            aligned.push(pair);
            assert(aligned@ + aligned_from(
                primary@,
                reference@,
                max_gap_ns as int,
                (i + 1) as nat,
                (j + 1) as nat,
            ) =~= before + rest);
            i = i + 1;
            j = j + 1;
        } else if p_ts < r_ts {
            i = i + 1;
        } else {
            j = j + 1;
        }
    }
    assert(aligned@ =~= aligned@ + aligned_from(
        primary@,
        reference@,
        max_gap_ns as int,
        i as nat,
        j as nat,
    ));
    aligned
}

/// Both frames of a pair are valid.
pub open spec fn both_valid(pair: (FrameReading, FrameReading)) -> bool {
    pair.0.valid && pair.1.valid
}

/// Of the pairs in which both frames are valid, how many have equal states
/// (`equal == true`) or different states (`equal == false`).
pub open spec fn agreement_count(pairs: Seq<(FrameReading, FrameReading)>, equal: bool) -> nat
    decreases pairs.len(),
{
    if pairs.len() == 0 {
        0
    } else {
        let last = pairs.last();
        let counts = both_valid(last) && ((last.0.state@ == last.1.state@) == equal);
        agreement_count(pairs.drop_last(), equal) + if counts {
            1nat
        } else {
            0nat
        }
    }
}

/// `ALIGNED` when more valid pairs agree than differ, `DIVERGING` when not,
/// `UNAVAILABLE` without a valid pair.
pub open spec fn state_agreement(pairs: Seq<(FrameReading, FrameReading)>) -> Seq<char> {
    let aligned = agreement_count(pairs, true);
    let diverging = agreement_count(pairs, false);
    if aligned == 0 && diverging == 0 {
        "UNAVAILABLE"@
    } else if aligned > diverging {
        "ALIGNED"@
    } else {
        "DIVERGING"@
    }
}

proof fn lemma_agreement_count_bound(pairs: Seq<(FrameReading, FrameReading)>, equal: bool)
    ensures
        agreement_count(pairs, equal) <= pairs.len(),
    decreases pairs.len(),
{
    if pairs.len() > 0 {
        lemma_agreement_count_bound(pairs.drop_last(), equal);
    }
}

/// Whether the component's states of aligned frames agree.
pub fn compute_state_agreement(pairs: &[(FrameReading, FrameReading)]) -> (r: String)
    ensures
        r@ == state_agreement(pairs@),
{
    let n = pairs.len();
    let mut aligned: usize = 0;
    let mut diverging: usize = 0;
    let mut i: usize = 0;
    while i < n
        invariant
            n == pairs@.len(),
            i <= n,
            aligned == agreement_count(pairs@.subrange(0, i as int), true),
            diverging == agreement_count(pairs@.subrange(0, i as int), false),
        decreases n - i,
    {
        let prefix = Ghost(pairs@.subrange(0, i + 1));
        assert(prefix@.drop_last() =~= pairs@.subrange(0, i as int));
        proof {
            lemma_agreement_count_bound(pairs@.subrange(0, i as int), true);
            lemma_agreement_count_bound(pairs@.subrange(0, i as int), false);
        }
        let (primary, reference) = (&pairs[i].0, &pairs[i].1);
        if primary.valid && reference.valid {
            if text_eq(primary.state.as_str(), reference.state.as_str()) {
                aligned = aligned + 1;
            } else {
                diverging = diverging + 1;
            }
        }
        i = i + 1;
    }
    assert(pairs@.subrange(0, n as int) =~= pairs@);
    if aligned == 0 && diverging == 0 {
        "UNAVAILABLE".to_owned()
    } else if aligned > diverging {
        "ALIGNED".to_owned()
    } else {
        "DIVERGING".to_owned()
    }
}

/// The state agreement of aligned pairs follows the majority of the pairs
/// in which both frames are valid: `ALIGNED` whenever more of them have
/// equal states than different ones, `DIVERGING` when at least as many
/// differ and some valid pair exists, `UNAVAILABLE` when none is valid.
pub proof fn lemma_state_agreement_follows_majority(pairs: Seq<(FrameReading, FrameReading)>)
    ensures
        agreement_count(pairs, true) > agreement_count(pairs, false) ==> state_agreement(pairs)
            == "ALIGNED"@,
        agreement_count(pairs, true) <= agreement_count(pairs, false) && agreement_count(pairs, false)
            > 0 ==> state_agreement(pairs) == "DIVERGING"@,
        (forall|i: int| 0 <= i < pairs.len() ==> !both_valid(#[trigger] pairs[i])) ==> state_agreement(pairs)
            == "UNAVAILABLE"@,
{
    lemma_no_valid_pair_counts_nothing(pairs);
}

/// Without a valid pair, no pair counts as agreeing or diverging.
proof fn lemma_no_valid_pair_counts_nothing(pairs: Seq<(FrameReading, FrameReading)>)
    ensures
        (forall|i: int| 0 <= i < pairs.len() ==> !both_valid(#[trigger] pairs[i])) ==> agreement_count(
            pairs,
            true,
        ) == 0 && agreement_count(pairs, false) == 0,
    decreases pairs.len(),
{
    if pairs.len() > 0 {
        lemma_no_valid_pair_counts_nothing(pairs.drop_last());
        if forall|i: int| 0 <= i < pairs.len() ==> !both_valid(#[trigger] pairs[i]) {
            assert forall|i: int| 0 <= i < pairs.drop_last().len() implies !both_valid(
                #[trigger] pairs.drop_last()[i],
            ) by {
                assert(pairs.drop_last()[i] == pairs[i]);
            }
            assert(!both_valid(pairs[pairs.len() - 1]));
        }
    }
}

} // verus!
