//! Native multi-timeframe signal requests: validation, timeframe selection
//! and cross-scale composition of per-scale directions.

use vstd::prelude::*;
use crate::contracts::{timeframe_seconds, Direction, RuntimeStatus, SignalMode, Timeframe};
use crate::text::{ascii_lower, eq_ignore_ascii_case, text_eq_ignore_ascii_case};
use std::collections::BTreeMap;

verus! {

/// Request for a multi-timeframe financial structural signal.
#[derive(Debug, Clone, PartialEq, Eq)]
pub struct FinancialSignalRequest {
    /// Canonical asset symbol or alias (e.g. "BTC", "SP500", "GOLD").
    pub asset: String,
    /// Venue override; "auto" lets the resolver pick.
    pub venue: String,
    /// Quote currency override; "auto" lets the resolver pick.
    pub quote: String,
    /// Timeframes to evaluate; empty means every supported timeframe.
    pub timeframes: Vec<Timeframe>,
    pub mode: SignalMode,
    /// Optional reference asset for cross-asset evidence.
    pub reference_asset: Option<String>,
}

pub fn default_venue() -> (r: String)
    ensures
        r@ == "auto"@,
{
    "auto".to_owned()
}

pub fn default_quote() -> (r: String)
    ensures
        r@ == "auto"@,
{
    "auto".to_owned()
}

pub fn default_mode() -> (r: SignalMode)
    ensures
        r == SignalMode::Confirmed,
{
    SignalMode::Confirmed
}

/// The requested timeframes that are supported, in request order.
pub open spec fn supported_only(requested: Seq<Timeframe>, supported: Seq<Timeframe>) -> Seq<Timeframe>
    decreases requested.len(),
{
    if requested.len() == 0 {
        Seq::empty()
    } else {
        let rest = supported_only(requested.drop_last(), supported);
        if supported.contains(requested.last()) {
            rest.push(requested.last())
        } else {
            rest
        }
    }
}

fn contains_timeframe(items: &[Timeframe], timeframe: Timeframe) -> (r: bool)
    ensures
        r == items@.contains(timeframe),
{
    let mut i: usize = 0;
    while i < items.len()
        invariant
            i <= items@.len(),
            forall|k: int| 0 <= k < i ==> items@[k] != timeframe,
        decreases items@.len() - i,
    {
        if items[i] == timeframe {
            return true;
        }
        i = i + 1;
    }
    false
}

impl FinancialSignalRequest {
    /// The timeframes to evaluate: all supported ones when none is requested,
    /// otherwise the requested ones that are supported.
    pub fn resolve_timeframes(&self, supported: &[Timeframe]) -> (r: Vec<Timeframe>)
        ensures
            r@ == (if self.timeframes@.len() == 0 {
                supported@
            } else {
                supported_only(self.timeframes@, supported@)
            }),
    {
        let mut out: Vec<Timeframe> = Vec::new();
        if self.timeframes.len() == 0 {
            let mut i: usize = 0;
            while i < supported.len()
                invariant
                    i <= supported@.len(),
                    out@ == supported@.subrange(0, i as int),
                decreases supported@.len() - i,
            {
                out.push(supported[i]);
                i = i + 1;
            }
            assert(supported@.subrange(0, supported@.len() as int) =~= supported@);
            return out;
        }
        let n = self.timeframes.len();
        let mut i: usize = 0;
        while i < n
            invariant
                n == self.timeframes@.len(),
                i <= n,
                out@ == supported_only(self.timeframes@.subrange(0, i as int), supported@),
            decreases n - i,
        {
            let timeframe = self.timeframes[i];
            assert(self.timeframes@.subrange(0, i + 1).drop_last() =~= self.timeframes@.subrange(
                0,
                i as int,
            ));
            if contains_timeframe(supported, timeframe) {
                out.push(timeframe);
            }
            i = i + 1;
        }
        assert(self.timeframes@.subrange(0, n as int) =~= self.timeframes@);
        out
    }
}

pub open spec fn has_duplicate(items: Seq<Timeframe>) -> bool {
    exists|i: int, j: int| 0 <= i < j < items.len() && items[i] == items[j]
}

pub open spec fn only_daily_or_weekly(items: Seq<Timeframe>) -> bool {
    forall|k: int| 0 <= k < items.len() ==> (#[trigger] items[k] == Timeframe::D1 || items[k] == Timeframe::W1)
}

/// The first control that the native endpoint does not apply, if any.
pub open spec fn native_request_problem(request: FinancialSignalRequest) -> Option<Seq<char>> {
    if !eq_ignore_ascii_case(request.venue@, "auto"@) {
        Some("venue overrides are not supported; use `venue: \"auto\"`"@)
    } else if !eq_ignore_ascii_case(request.quote@, "auto"@) {
        Some("quote overrides are not supported; use `quote: \"auto\"`"@)
    } else if request.reference_asset.is_some() {
        Some("reference_asset is not implemented on this endpoint"@)
    } else if request.mode != SignalMode::Confirmed {
        Some("LIVE_PREVIEW is not implemented on this closed-corpus endpoint"@)
    } else if !only_daily_or_weekly(request.timeframes@) {
        Some("native supplied-corpus requests support only D1 and W1"@)
    } else if has_duplicate(request.timeframes@) {
        Some("duplicate timeframes are not supported"@)
    } else {
        None
    }
}

/// Rejects request controls that the native supplied-corpus endpoint does
/// not apply, naming the first one found.
pub fn validate_native_request(request: &FinancialSignalRequest) -> (r: Result<(), String>)
    ensures
        match r {
            Ok(()) => native_request_problem(*request).is_none(),
            Err(message) => native_request_problem(*request) == Some(message@),
        },
{
    if !text_eq_ignore_ascii_case(request.venue.as_str(), "auto") {
        return Err("venue overrides are not supported; use `venue: \"auto\"`".to_owned());
    }
    if !text_eq_ignore_ascii_case(request.quote.as_str(), "auto") {
        return Err("quote overrides are not supported; use `quote: \"auto\"`".to_owned());
    }
    if request.reference_asset.is_some() {
        return Err("reference_asset is not implemented on this endpoint".to_owned());
    }
    if request.mode != SignalMode::Confirmed {
        return Err("LIVE_PREVIEW is not implemented on this closed-corpus endpoint".to_owned());
    }
    let n = request.timeframes.len();
    let mut i: usize = 0;
    while i < n
        invariant
            eq_ignore_ascii_case(request.venue@, "auto"@),
            eq_ignore_ascii_case(request.quote@, "auto"@),
            request.reference_asset.is_none(),
            request.mode == SignalMode::Confirmed,
            n == request.timeframes@.len(),
            i <= n,
            forall|k: int| 0 <= k < i ==> (#[trigger] request.timeframes@[k] == Timeframe::D1
                || request.timeframes@[k] == Timeframe::W1),
        decreases n - i,
    {
        let timeframe = request.timeframes[i];
        if !(timeframe == Timeframe::D1 || timeframe == Timeframe::W1) {
            return Err("native supplied-corpus requests support only D1 and W1".to_owned());
        }
        i = i + 1;
    }
    let mut j: usize = 0;
    while j < n
        invariant
            eq_ignore_ascii_case(request.venue@, "auto"@),
            eq_ignore_ascii_case(request.quote@, "auto"@),
            request.reference_asset.is_none(),
            request.mode == SignalMode::Confirmed,
            n == request.timeframes@.len(),
            j <= n,
            only_daily_or_weekly(request.timeframes@),
            forall|a: int, b: int| 0 <= a < b < j ==> request.timeframes@[a] != request.timeframes@[b],
        decreases n - j,
    {
        let timeframe = request.timeframes[j];
        let mut k: usize = 0;
        while k < j
            invariant
                eq_ignore_ascii_case(request.venue@, "auto"@),
                eq_ignore_ascii_case(request.quote@, "auto"@),
                request.reference_asset.is_none(),
                request.mode == SignalMode::Confirmed,
                only_daily_or_weekly(request.timeframes@),
                n == request.timeframes@.len(),
                j < n,
                k <= j,
                timeframe == request.timeframes@[j as int],
                forall|a: int| 0 <= a < k ==> request.timeframes@[a] != timeframe,
            decreases j - k,
        {
            if request.timeframes[k] == timeframe {
                assert(has_duplicate(request.timeframes@)) by {
                    assert(request.timeframes@[k as int] == request.timeframes@[j as int]);
                }
                return Err("duplicate timeframes are not supported".to_owned());
            }
            k = k + 1;
        }
        j = j + 1;
    }
    Ok(())
}

/// Cross-scale composition of per-scale directions.
#[derive(Debug, Clone, PartialEq, Eq)]
pub struct CrossScaleSignal {
    /// Dominant direction across the available scales.
    pub dominant_direction: Direction,
    /// "UNANIMOUS", "MAJORITY", "SPLIT" or "UNAVAILABLE".
    pub agreement: String,
    pub agreeing_scales: Vec<Timeframe>,
    pub disagreeing_scales: Vec<Timeframe>,
    /// Finest agreeing scale.
    pub dominant_scale: Option<Timeframe>,
}

#[derive(Debug, Clone, PartialEq, Eq)]
pub struct ComposedSignal {
    pub direction: Direction,
    pub structural_state: String,
    pub dominant_scale: Option<Timeframe>,
    pub cross_scale: CrossScaleSignal,
}

#[derive(Debug, Clone, PartialEq, Eq)]
pub struct SignalProvenance {
    pub primary_provider: String,
    pub secondary_provider: Option<String>,
    pub data_watermark_ns: i64,
    pub engine_version: String,
    pub engine_config_sha256: String,
    pub structural_vector_version: String,
    pub resolution_calibration_version: Option<String>,
    pub resolution_profile_sha256: Option<String>,
    pub runtime_config_sha256: String,
    pub request_sha256: String,
    pub response_sha256: Option<String>,
}

#[derive(Debug, Clone, PartialEq, Eq)]
pub struct ErrorResponse {
    pub status: RuntimeStatus,
    pub error: String,
    pub details: Option<BTreeMap<String, String>>,
}

/// Number of readings with the given direction.
pub open spec fn direction_count(readings: Seq<(Timeframe, Direction)>, direction: Direction) -> nat
    decreases readings.len(),
{
    if readings.len() == 0 {
        0
    } else {
        direction_count(readings.drop_last(), direction) + if readings.last().1 == direction {
            1nat
        } else {
            0nat
        }
    }
}

/// The strict plurality direction among up, down and range, if there is one.
pub open spec fn spec_dominant(up: nat, down: nat, range: nat) -> Direction {
    if up > down && up > range {
        Direction::Up
    } else if down > up && down > range {
        Direction::Down
    } else if range > up && range > down {
        Direction::Range
    } else {
        Direction::Unresolved
    }
}

/// The direction that scales are compared against: the dominant one, or
/// the first most frequent one in up, down, range order.
pub open spec fn spec_reference(up: nat, down: nat, range: nat) -> Direction {
    let dominant = spec_dominant(up, down, range);
    if dominant != Direction::Unresolved {
        dominant
    } else if up >= down && up >= range {
        Direction::Up
    } else if down >= up && down >= range {
        Direction::Down
    } else if range > 0 {
        Direction::Range
    } else {
        Direction::Unresolved
    }
}

/// Timeframes of the readings that agree (or, for `agreeing == false`,
/// disagree while resolved) with the reference direction, in order.
pub open spec fn scales_relative(
    readings: Seq<(Timeframe, Direction)>,
    reference: Direction,
    agreeing: bool,
) -> Seq<Timeframe>
    decreases readings.len(),
{
    if readings.len() == 0 {
        Seq::empty()
    } else {
        let rest = scales_relative(readings.drop_last(), reference, agreeing);
        let d = readings.last().1;
        let agrees = reference != Direction::Unresolved && d == reference;
        let keep = if agreeing {
            agrees
        } else {
            !agrees && d != Direction::Unresolved
        };
        if keep {
            rest.push(readings.last().0)
        } else {
            rest
        }
    }
}

#[verifier::allow_in_spec]
pub fn agreement_label(agreeing: usize, disagreeing: usize) -> &'static str
    returns
        (if agreeing > 0 && disagreeing == 0 {
            "UNANIMOUS"
        } else if agreeing > disagreeing {
            "MAJORITY"
        } else if agreeing == disagreeing && agreeing > 0 {
            "SPLIT"
        } else {
            "UNAVAILABLE"
        }),
{
    if agreeing > 0 && disagreeing == 0 {
        "UNANIMOUS"
    } else if agreeing > disagreeing {
        "MAJORITY"
    } else if agreeing == disagreeing && agreeing > 0 {
        "SPLIT"
    } else {
        "UNAVAILABLE"
    }
}

/// Granularity rank of a timeframe, finest first.
pub open spec fn timeframe_rank(timeframe: Timeframe) -> nat {
    match timeframe {
        Timeframe::M1 => 0,
        Timeframe::M5 => 1,
        Timeframe::H1 => 2,
        Timeframe::H4 => 3,
        Timeframe::D1 => 4,
        Timeframe::W1 => 5,
    }
}

fn timeframe_rank_of(timeframe: Timeframe) -> (r: u8)
    ensures
        r == timeframe_rank(timeframe),
{
    match timeframe {
        Timeframe::M1 => 0,
        Timeframe::M5 => 1,
        Timeframe::H1 => 2,
        Timeframe::H4 => 3,
        Timeframe::D1 => 4,
        Timeframe::W1 => 5,
    }
}

/// The finest timeframe among the given ones, if any.
pub open spec fn finest(scales: Seq<Timeframe>) -> Option<Timeframe>
    decreases scales.len(),
{
    if scales.len() == 0 {
        None
    } else {
        let rest = finest(scales.drop_last());
        match rest {
            Some(t) => if timeframe_rank(t) <= timeframe_rank(scales.last()) {
                Some(t)
            } else {
                Some(scales.last())
            },
            None => Some(scales.last()),
        }
    }
}

/// What `determine_cross_scale` composes from per-scale readings.
pub open spec fn cross_scale_ok(r: CrossScaleSignal, readings: Seq<(Timeframe, Direction)>) -> bool {
    let up = direction_count(readings, Direction::Up);
    let down = direction_count(readings, Direction::Down);
    let range = direction_count(readings, Direction::Range);
    let reference = spec_reference(up, down, range);
    let agreeing = scales_relative(readings, reference, true);
    let disagreeing = scales_relative(readings, reference, false);
    &&& r.dominant_direction == spec_dominant(up, down, range)
    &&& r.agreeing_scales@ == agreeing
    &&& r.disagreeing_scales@ == disagreeing
    &&& r.agreement@ == agreement_label(agreeing.len() as usize, disagreeing.len() as usize)@
    &&& r.dominant_scale == finest(agreeing)
}

fn count_direction(readings: &[(Timeframe, Direction)], direction: Direction) -> (r: usize)
    ensures
        r == direction_count(readings@, direction),
{
    let n = readings.len();
    let mut count: usize = 0;
    let mut i: usize = 0;
    while i < n
        invariant
            n == readings@.len(),
            i <= n,
            count == direction_count(readings@.subrange(0, i as int), direction),
            count <= i,
        decreases n - i,
    {
        assert(readings@.subrange(0, i + 1).drop_last() =~= readings@.subrange(0, i as int));
        if readings[i].1 == direction {
            count = count + 1;
        }
        i = i + 1;
    }
    assert(readings@.subrange(0, n as int) =~= readings@);
    count
}

proof fn lemma_relative_len(readings: Seq<(Timeframe, Direction)>, reference: Direction, agreeing: bool)
    ensures
        scales_relative(readings, reference, agreeing).len() <= readings.len(),
    decreases readings.len(),
{
    if readings.len() > 0 {
        lemma_relative_len(readings.drop_last(), reference, agreeing);
    }
}

/// Composes per-scale directions (one `(timeframe, direction)` reading per
/// scale, in order) into a cross-scale agreement.
pub fn determine_cross_scale(readings: &[(Timeframe, Direction)]) -> (r: CrossScaleSignal)
    ensures
        cross_scale_ok(r, readings@),
{
    let up = count_direction(readings, Direction::Up);
    let down = count_direction(readings, Direction::Down);
    let range = count_direction(readings, Direction::Range);
    let dominant = if up > down && up > range {
        Direction::Up
    } else if down > up && down > range {
        Direction::Down
    } else if range > up && range > down {
        Direction::Range
    } else {
        Direction::Unresolved
    };
    let reference = if dominant != Direction::Unresolved {
        dominant
    } else if up >= down && up >= range {
        Direction::Up
    } else if down >= up && down >= range {
        Direction::Down
    } else if range > 0 {
        Direction::Range
    } else {
        Direction::Unresolved
    };
    let mut agreeing: Vec<Timeframe> = Vec::new();
    let mut disagreeing: Vec<Timeframe> = Vec::new();
    let mut dominant_scale: Option<Timeframe> = None;
    let n = readings.len();
    let mut i: usize = 0;
    while i < n
        invariant
            n == readings@.len(),
            i <= n,
            agreeing@ == scales_relative(readings@.subrange(0, i as int), reference, true),
            disagreeing@ == scales_relative(readings@.subrange(0, i as int), reference, false),
            dominant_scale == finest(agreeing@),
        decreases n - i,
    {
        let (timeframe, direction) = readings[i];
        let ghost prefix = readings@.subrange(0, i as int);
        assert(readings@.subrange(0, i + 1).drop_last() =~= prefix);
        if reference != Direction::Unresolved && direction == reference {
            let ghost before = agreeing@;
            agreeing.push(timeframe);
            assert(agreeing@.drop_last() =~= before);
            dominant_scale = match dominant_scale {
                Some(t) => if timeframe_rank_of(t) <= timeframe_rank_of(timeframe) {
                    Some(t)
                } else {
                    Some(timeframe)
                },
                None => Some(timeframe),
            };
        } else if direction != Direction::Unresolved {
            disagreeing.push(timeframe);
        }
        i = i + 1;
    }
    assert(readings@.subrange(0, n as int) =~= readings@);
    proof {
        lemma_relative_len(readings@, reference, true);
        lemma_relative_len(readings@, reference, false);
    }
    let label = agreement_label(agreeing.len(), disagreeing.len());
    CrossScaleSignal {
        dominant_direction: dominant,
        agreement: label.to_owned(),
        agreeing_scales: agreeing,
        disagreeing_scales: disagreeing,
        dominant_scale,
    }
}

/// Agreeing and disagreeing scales together are exactly the readings with a
/// resolved direction, whenever the reference direction is resolved.
pub proof fn lemma_scales_partition_resolved(
    readings: Seq<(Timeframe, Direction)>,
    reference: Direction,
)
    requires
        reference != Direction::Unresolved,
    ensures
        scales_relative(readings, reference, true).len() + scales_relative(
            readings,
            reference,
            false,
        ).len() == readings.len() - direction_count(readings, Direction::Unresolved),
    decreases readings.len(),
{
    if readings.len() > 0 {
        lemma_scales_partition_resolved(readings.drop_last(), reference);
    }
}

/// The direction with a strict majority over each other one, counting
/// unresolved readings as a fourth kind; unresolved when none has one.
pub open spec fn strict_majority(readings: Seq<(Timeframe, Direction)>) -> Direction {
    let up = direction_count(readings, Direction::Up);
    let down = direction_count(readings, Direction::Down);
    let range = direction_count(readings, Direction::Range);
    let unresolved = direction_count(readings, Direction::Unresolved);
    if up > down && up > range && up > unresolved {
        Direction::Up
    } else if down > up && down > range && down > unresolved {
        Direction::Down
    } else if range > up && range > down && range > unresolved {
        Direction::Range
    } else {
        Direction::Unresolved
    }
}

/// The dominant direction by simple majority over per-scale readings, in
/// which unresolved readings also vote.
pub fn determine_dominant_direction(readings: &[(Timeframe, Direction)]) -> (r: Direction)
    ensures
        r == strict_majority(readings@),
{
    let up = count_direction(readings, Direction::Up);
    let down = count_direction(readings, Direction::Down);
    let range = count_direction(readings, Direction::Range);
    let unresolved = count_direction(readings, Direction::Unresolved);
    if up > down && up > range && up > unresolved {
        Direction::Up
    } else if down > up && down > range && down > unresolved {
        Direction::Down
    } else if range > up && range > down && range > unresolved {
        Direction::Range
    } else {
        Direction::Unresolved
    }
}

/// What the signal response reads of one scale: its timeframe, its
/// technical direction, the instant its structural snapshot is as of, and
/// the number of bars its technical reading used.
#[derive(Debug, Clone, Copy, PartialEq, Eq, Structural)]
pub struct ScaleReading {
    pub timeframe: Timeframe,
    pub direction: Direction,
    pub as_of_ns: i64,
    pub bars_used: u64,
}

/// The decided part of a multi-timeframe signal response: its status, the
/// instant it is as of, its direction and label, the cross-scale
/// composition it follows from, and each scale's sample support.
#[derive(Debug, Clone, PartialEq, Eq)]
pub struct SignalHeader {
    pub status: RuntimeStatus,
    pub as_of_ns: i64,
    pub direction: Direction,
    pub label: String,
    pub cross_scale: Option<CrossScaleSignal>,
    pub sample_support: Vec<u64>,
}

/// The latest instant among the scales; 0 when there are none.
pub open spec fn max_as_of(scales: Seq<ScaleReading>) -> i64
    decreases scales.len(),
{
    if scales.len() == 0 {
        0
    } else if scales.len() == 1 {
        scales[0].as_of_ns
    } else {
        let earlier = max_as_of(scales.drop_last());
        if scales.last().as_of_ns > earlier {
            scales.last().as_of_ns
        } else {
            earlier
        }
    }
}

/// The (timeframe, direction) reading of each scale.
pub open spec fn readings_of(scales: Seq<ScaleReading>) -> Seq<(Timeframe, Direction)> {
    scales.map_values(|s: ScaleReading| (s.timeframe, s.direction))
}

/// A direction's name, as the response labels it.
pub open spec fn direction_name(d: Direction) -> Seq<char> {
    match d {
        Direction::Up => "Up"@,
        Direction::Down => "Down"@,
        Direction::Range => "Range"@,
        Direction::Unresolved => "Unresolved"@,
    }
}

fn direction_label(d: Direction) -> (r: String)
    ensures
        r@ == direction_name(d),
{
    match d {
        Direction::Up => "Up".to_owned(),
        Direction::Down => "Down".to_owned(),
        Direction::Range => "Range".to_owned(),
        Direction::Unresolved => "Unresolved".to_owned(),
    }
}

/// Decides a multi-timeframe signal response from its scales. With no
/// scales the response has insufficient data, no direction and the label
/// `UNAVAILABLE`, as of 0. Otherwise it is `Ok`, as of the latest scale,
/// and takes its direction from the cross-scale composition of the scales'
/// directions, labelled by name; each scale's sample support is the bars
/// its technical reading used.
pub fn signal_response_header(scales: &[ScaleReading]) -> (r: SignalHeader)
    ensures
        scales@.len() == 0 ==> {
            &&& r.status == RuntimeStatus::InsufficientData
            &&& r.as_of_ns == 0
            &&& r.direction == Direction::Unresolved
            &&& r.label@ == "UNAVAILABLE"@
            &&& r.cross_scale is None
            &&& r.sample_support@.len() == 0
        },
        scales@.len() > 0 ==> {
            &&& r.status == RuntimeStatus::Okay
            &&& r.as_of_ns == max_as_of(scales@)
            &&& r.cross_scale matches Some(c) && cross_scale_ok(c, readings_of(scales@))
                && r.direction == c.dominant_direction
            &&& r.label@ == direction_name(r.direction)
            &&& r.sample_support@ == scales@.map_values(|s: ScaleReading| s.bars_used)
        },
{
    let n = scales.len();
    if n == 0 {
        return SignalHeader {
            status: RuntimeStatus::InsufficientData,
            as_of_ns: 0,
            direction: Direction::Unresolved,
            label: "UNAVAILABLE".to_owned(),
            cross_scale: None,
            sample_support: Vec::new(),
        };
    }
    let mut readings: Vec<(Timeframe, Direction)> = Vec::new();
    let mut support: Vec<u64> = Vec::new();
    let mut as_of = scales[0].as_of_ns;
    let mut i: usize = 0;
    while i < n
        invariant
            n == scales@.len(),
            n > 0,
            i <= n,
            readings@ == readings_of(scales@.subrange(0, i as int)),
            support@ == scales@.subrange(0, i as int).map_values(|s: ScaleReading| s.bars_used),
            as_of == max_as_of(scales@.subrange(0, if i == 0 { 1 } else { i as int })),
        decreases n - i,
    {
        let s = scales[i];
        proof {
            let pre = scales@.subrange(0, i + 1);
            assert(pre.drop_last() =~= scales@.subrange(0, i as int));
            assert(readings_of(pre) =~= readings_of(scales@.subrange(0, i as int)).push((s.timeframe, s.direction)));
            assert(pre.map_values(|s: ScaleReading| s.bars_used) =~= scales@.subrange(0, i as int).map_values(|s: ScaleReading| s.bars_used).push(s.bars_used));
        }
        readings.push((s.timeframe, s.direction));
        support.push(s.bars_used);
        if i > 0 && s.as_of_ns > as_of {
            as_of = s.as_of_ns;
        }
        i = i + 1;
    }
    assert(scales@.subrange(0, n as int) =~= scales@);
    let cross = determine_cross_scale(readings.as_slice());
    let direction = cross.dominant_direction;
    SignalHeader {
        status: RuntimeStatus::Okay,
        as_of_ns: as_of,
        direction,
        label: direction_label(direction),
        cross_scale: Some(cross),
        sample_support: support,
    }
}

/// The finest of a list of timeframes belongs to it and is at least as
/// fine as each of them; there is one exactly when the list is not empty.
proof fn lemma_finest_is_minimal(scales: Seq<Timeframe>)
    ensures
        finest(scales) is None <==> scales.len() == 0,
        finest(scales) matches Some(t) ==> scales.contains(t) && forall|i: int|
            0 <= i < scales.len() ==> timeframe_seconds(t) <= timeframe_seconds(#[trigger] scales[i]),
    decreases scales.len(),
{
    if scales.len() > 0 {
        let rest = scales.drop_last();
        lemma_finest_is_minimal(rest);
        if let Some(t) = finest(scales) {
            assert forall|i: int| 0 <= i < scales.len() implies timeframe_seconds(t) <= timeframe_seconds(
                #[trigger] scales[i],
            ) by {
                if i < scales.len() - 1 {
                    assert(scales[i] == rest[i]);
                }
            }
            match finest(rest) {
                Some(u) => {
                    if t == u {
                        let k = choose|k: int| 0 <= k < rest.len() && rest[k] == u;
                        assert(scales[k] == u);
                    } else {
                        assert(scales[scales.len() - 1] == t);
                    }
                },
                None => {
                    assert(scales[scales.len() - 1] == t);
                },
            }
        }
    }
}

/// The dominant scale of a cross-scale composition is the coarseness-wise
/// finest of its agreeing scales (by bar duration, M1 finest and W1
/// coarsest): it is one of them and none is finer. There is a dominant
/// scale exactly when some scale agrees.
pub proof fn lemma_dominant_scale_is_finest_agreeing(
    r: CrossScaleSignal,
    readings: Seq<(Timeframe, Direction)>,
)
    requires
        cross_scale_ok(r, readings),
    ensures
        r.dominant_scale is None <==> r.agreeing_scales@.len() == 0,
        r.dominant_scale matches Some(t) ==> {
            &&& r.agreeing_scales@.contains(t)
            &&& forall|i: int|
                0 <= i < r.agreeing_scales@.len() ==> timeframe_seconds(t) <= timeframe_seconds(
                    #[trigger] r.agreeing_scales@[i],
                )
        },
{
    lemma_finest_is_minimal(r.agreeing_scales@);
}

/// A word that is `auto` up to the case of its ASCII letters.
pub open spec fn is_auto_word(s: Seq<char>) -> bool {
    &&& s.len() == 4
    &&& (s[0] == 'a' || s[0] == 'A')
    &&& (s[1] == 'u' || s[1] == 'U')
    &&& (s[2] == 't' || s[2] == 'T')
    &&& (s[3] == 'o' || s[3] == 'O')
}

/// A venue or quote of `auto`, in any ASCII case, is never refused as an
/// override; any other venue is refused as a venue override first, and any
/// other quote, after an automatic venue, as a quote override.
pub proof fn lemma_auto_in_any_case_is_no_override(request: FinancialSignalRequest)
    ensures
        native_request_problem(request) == Some(
            "venue overrides are not supported; use `venue: \"auto\"`"@,
        ) <==> !is_auto_word(request.venue@),
        native_request_problem(request) == Some(
            "quote overrides are not supported; use `quote: \"auto\"`"@,
        ) <==> is_auto_word(request.venue@) && !is_auto_word(request.quote@),
{
    reveal_strlit("auto");
    reveal_strlit("venue overrides are not supported; use `venue: \"auto\"`");
    reveal_strlit("quote overrides are not supported; use `quote: \"auto\"`");
    reveal_strlit("reference_asset is not implemented on this endpoint");
    reveal_strlit("LIVE_PREVIEW is not implemented on this closed-corpus endpoint");
    reveal_strlit("native supplied-corpus requests support only D1 and W1");
    reveal_strlit("duplicate timeframes are not supported");
    lemma_auto_word(request.venue@);
    lemma_auto_word(request.quote@);
    let venue = "venue overrides are not supported; use `venue: \"auto\"`"@;
    let quote = "quote overrides are not supported; use `quote: \"auto\"`"@;
    let others = seq![
        "reference_asset is not implemented on this endpoint"@,
        "LIVE_PREVIEW is not implemented on this closed-corpus endpoint"@,
        "native supplied-corpus requests support only D1 and W1"@,
        "duplicate timeframes are not supported"@,
    ];
    assert(venue[0] == 'v' && quote[0] == 'q');
    assert(others[0][0] == 'r' && others[1][0] == 'L' && others[2][0] == 'n' && others[3][0] == 'd');
    assert(venue != quote);
    assert(forall|k: int| 0 <= k < 4 ==> #[trigger] others[k] != venue && others[k] != quote);
}

/// `auto` up to ASCII case is exactly the case variants of its letters.
proof fn lemma_auto_word(s: Seq<char>)
    ensures
        eq_ignore_ascii_case(s, "auto"@) <==> is_auto_word(s),
{
    reveal_strlit("auto");
    if is_auto_word(s) {
        assert forall|k: int| 0 <= k < s.len() implies ascii_lower(s[k]) == ascii_lower("auto"@[k]) by {
        }
    }
    if eq_ignore_ascii_case(s, "auto"@) {
        assert(ascii_lower(s[0]) == ascii_lower("auto"@[0]));
        assert(ascii_lower(s[1]) == ascii_lower("auto"@[1]));
        assert(ascii_lower(s[2]) == ascii_lower("auto"@[2]));
        assert(ascii_lower(s[3]) == ascii_lower("auto"@[3]));
    }
}

} // verus!
