//! The native response sections for one financial signal: calibration,
//! horizon, instrument identity and provenance.

use vstd::prelude::*;
use crate::calibration::DirectionalResolution;
use crate::contracts::{
    clone_optional_string, AssetClass, CalibrationScope, Direction, Horizon, Instrument,
    ProbabilitiesBp,
};
use crate::text::text_eq;

verus! {

/// Whether a direction comes from technical indicators or from calibration.
#[derive(Debug, Clone, Copy, PartialEq, Eq, Structural)]
pub enum DirectionBasis {
    Technical,
    CalibratedResolution,
}

#[derive(Debug, Clone, Copy, PartialEq, Eq, Structural)]
pub enum CalibrationStatus {
    Available,
    Unavailable,
    InsufficientMatchedSupport,
    HeldOutProbabilitySkillNotPositive,
    HeldOutReliabilityNotMet,
    CalibratedDirectionEdgeNotMet,
    CalibrationEvidenceNotPreregistered,
    MissingProfile,
    MissingCorpus,
    IncompatibleProfile,
}

/// The calibration status named by a publication reason; any other reason
/// reads as unavailable.
pub open spec fn status_for_reason(reason: Seq<char>) -> CalibrationStatus {
    if reason == "CALIBRATED_EVIDENCE_SATISFIED"@ {
        CalibrationStatus::Available
    } else if reason == "INSUFFICIENT_MATCHED_SUPPORT"@ {
        CalibrationStatus::InsufficientMatchedSupport
    } else if reason == "HELD_OUT_PROBABILITY_SKILL_NOT_POSITIVE"@ {
        CalibrationStatus::HeldOutProbabilitySkillNotPositive
    } else if reason == "HELD_OUT_RELIABILITY_NOT_MET"@ {
        CalibrationStatus::HeldOutReliabilityNotMet
    } else if reason == "CALIBRATED_DIRECTION_EDGE_NOT_MET"@ {
        CalibrationStatus::CalibratedDirectionEdgeNotMet
    } else if reason == "CALIBRATION_EVIDENCE_NOT_PREREGISTERED"@ {
        CalibrationStatus::CalibrationEvidenceNotPreregistered
    } else {
        CalibrationStatus::Unavailable
    }
}

impl CalibrationStatus {
    pub fn from_reason(reason: &str) -> (r: CalibrationStatus)
        ensures
            r == status_for_reason(reason@),
    {
        if text_eq(reason, "CALIBRATED_EVIDENCE_SATISFIED") {
            CalibrationStatus::Available
        } else if text_eq(reason, "INSUFFICIENT_MATCHED_SUPPORT") {
            CalibrationStatus::InsufficientMatchedSupport
        } else if text_eq(reason, "HELD_OUT_PROBABILITY_SKILL_NOT_POSITIVE") {
            CalibrationStatus::HeldOutProbabilitySkillNotPositive
        } else if text_eq(reason, "HELD_OUT_RELIABILITY_NOT_MET") {
            CalibrationStatus::HeldOutReliabilityNotMet
        } else if text_eq(reason, "CALIBRATED_DIRECTION_EDGE_NOT_MET") {
            CalibrationStatus::CalibratedDirectionEdgeNotMet
        } else if text_eq(reason, "CALIBRATION_EVIDENCE_NOT_PREREGISTERED") {
            CalibrationStatus::CalibrationEvidenceNotPreregistered
        } else {
            CalibrationStatus::Unavailable
        }
    }
}

/// The calibration section of a native response.
#[derive(Debug, Clone, PartialEq, Eq)]
pub struct NativeCalibration {
    pub status: CalibrationStatus,
    pub calibrated: bool,
    pub scope: CalibrationScope,
    pub probabilities_bp: Option<ProbabilitiesBp>,
    pub reliability_bp: Option<u16>,
    pub sample_support: u64,
    pub profile_sha256: Option<String>,
    pub publication_reason: Option<String>,
}

impl NativeCalibration {
    /// Calibration section for a published calibrated resolution.
    pub fn from_resolution(resolution: &DirectionalResolution) -> (r: Self)
        ensures
            r.status == CalibrationStatus::Available,
            r.calibrated,
            r.scope == resolution.calibration_scope,
            r.probabilities_bp == resolution.probabilities_bp,
            r.reliability_bp == resolution.reliability_bp,
            r.sample_support == resolution.sample_support,
            r.profile_sha256 == Some(resolution.profile_sha256),
            r.publication_reason == Some(resolution.publication_reason),
    {
        Self {
            status: CalibrationStatus::Available,
            calibrated: true,
            scope: resolution.calibration_scope,
            probabilities_bp: resolution.probabilities_bp,
            reliability_bp: resolution.reliability_bp,
            sample_support: resolution.sample_support,
            profile_sha256: Some(resolution.profile_sha256.clone()),
            publication_reason: Some(resolution.publication_reason.clone()),
        }
    }

    /// Calibration section that publishes nothing, with an explicit reason.
    pub fn unavailable(
        scope: CalibrationScope,
        reason: CalibrationStatus,
        profile_sha256: Option<String>,
    ) -> (r: Self)
        ensures
            r.status == reason,
            !r.calibrated,
            r.scope == scope,
            r.probabilities_bp.is_none(),
            r.reliability_bp.is_none(),
            r.sample_support == 0,
            r.profile_sha256 == profile_sha256,
            r.publication_reason.is_none(),
    {
        Self {
            status: reason,
            calibrated: false,
            scope,
            probabilities_bp: None,
            reliability_bp: None,
            sample_support: 0,
            profile_sha256,
            publication_reason: None,
        }
    }

    /// Calibration section for a resolution that did not pass publication:
    /// the support and the reason are kept, probabilities are withheld.
    pub fn from_unresolved(resolution: &DirectionalResolution) -> (r: Self)
        ensures
            r.status == status_for_reason(resolution.publication_reason@),
            !r.calibrated,
            r.scope == resolution.calibration_scope,
            r.probabilities_bp.is_none(),
            r.reliability_bp.is_none(),
            r.sample_support == resolution.sample_support,
            r.profile_sha256 == Some(resolution.profile_sha256),
            r.publication_reason == Some(resolution.publication_reason),
    {
        let reason = CalibrationStatus::from_reason(resolution.publication_reason.as_str());
        Self {
            status: reason,
            calibrated: false,
            scope: resolution.calibration_scope,
            probabilities_bp: None,
            reliability_bp: None,
            sample_support: resolution.sample_support,
            profile_sha256: Some(resolution.profile_sha256.clone()),
            publication_reason: Some(resolution.publication_reason.clone()),
        }
    }
}

#[derive(Debug, Clone, Copy, PartialEq, Eq, Structural)]
pub enum HorizonStatus {
    Available,
    Unavailable,
}

/// The horizon section of a native response, in bars.
#[derive(Debug, Clone, Copy, PartialEq, Eq, Structural)]
pub struct NativeHorizon {
    pub status: HorizonStatus,
    pub p25_bars: Option<u32>,
    pub median_bars: Option<u32>,
    pub p75_bars: Option<u32>,
}

impl NativeHorizon {
    pub fn from_horizon(horizon: &Horizon) -> (r: Self)
        ensures
            r.status == HorizonStatus::Available,
            r.p25_bars == horizon.p25_bars,
            r.median_bars == horizon.median_bars,
            r.p75_bars == horizon.p75_bars,
    {
        Self {
            status: HorizonStatus::Available,
            p25_bars: horizon.p25_bars,
            median_bars: horizon.median_bars,
            p75_bars: horizon.p75_bars,
        }
    }

    pub fn unavailable() -> (r: Self)
        ensures
            r.status == HorizonStatus::Unavailable,
            r.p25_bars.is_none(),
            r.median_bars.is_none(),
            r.p75_bars.is_none(),
    {
        Self { status: HorizonStatus::Unavailable, p25_bars: None, median_bars: None, p75_bars: None }
    }
}

#[derive(Debug, Clone, PartialEq, Eq)]
pub struct NativeQuality {
    pub structural_contrast: String,
    pub counter_pressure: String,
    pub data_freshness: String,
}

/// Instrument identification in a native response.
#[derive(Debug, Clone, PartialEq, Eq)]
pub struct NativeInstrument {
    pub id: String,
    pub symbol: String,
    pub asset: String,
    pub asset_class: AssetClass,
    pub venue: String,
}

impl NativeInstrument {
    /// The asset is the instrument's base, or empty when it has none.
    pub fn from_instrument(inst: &Instrument) -> (r: Self)
        ensures
            r.id == inst.instrument_id,
            r.symbol == inst.symbol,
            r.asset@ == (match inst.base {
                Some(b) => b@,
                None => Seq::<char>::empty(),
            }),
            r.asset_class == inst.asset_class,
            r.venue == inst.venue,
    {
        let asset = match &inst.base {
            Some(base) => base.clone(),
            None => String::new(),
        };
        Self {
            id: inst.instrument_id.clone(),
            symbol: inst.symbol.clone(),
            asset,
            asset_class: inst.asset_class,
            venue: inst.venue.clone(),
        }
    }
}

#[derive(Debug, Clone, PartialEq, Eq)]
pub struct StructuralContrastEvidence {
    pub component: String,
    pub evidence: String,
    pub alignment: String,
}

#[derive(Debug, PartialEq, Eq)]
pub struct NativeProvenance {
    pub engine_version: String,
    pub structural_vector_version: String,
    pub observation_interface_version: String,
    pub input_window_sha256: String,
    pub resolution_profile_sha256: Option<String>,
    pub primary_provider: String,
    pub provider_instrument: Option<String>,
    pub response_sha256: Option<String>,
}

impl Clone for NativeProvenance {
    fn clone(&self) -> (r: Self)
        ensures
            r == *self,
    {
        NativeProvenance {
            engine_version: self.engine_version.clone(),
            structural_vector_version: self.structural_vector_version.clone(),
            observation_interface_version: self.observation_interface_version.clone(),
            input_window_sha256: self.input_window_sha256.clone(),
            resolution_profile_sha256: clone_optional_string(&self.resolution_profile_sha256),
            primary_provider: self.primary_provider.clone(),
            provider_instrument: clone_optional_string(&self.provider_instrument),
            response_sha256: clone_optional_string(&self.response_sha256),
        }
    }
}

/// The signal section of a native response.
#[derive(Debug, Clone, PartialEq, Eq)]
pub struct NativeSignal {
    pub direction: Direction,
    pub direction_basis: DirectionBasis,
    pub strength: String,
    pub reason_code: String,
    pub reason: String,
    pub calibration: NativeCalibration,
    pub horizon: NativeHorizon,
}

/// Every resolution profile used carries the first one's calibration version.
pub open spec fn one_calibration_version(profiles: Seq<(String, String)>) -> bool {
    &&& profiles.len() > 0
    &&& forall|i: int| 0 <= i < profiles.len() ==> (#[trigger] profiles[i]).0@ == profiles[0].0@
}

/// From the (calibration version, profile digest) pairs of the resolution
/// profiles used for a signal: the calibration version when all share one,
/// and the profile digest when exactly one profile was used.
pub fn summarize_resolution_profiles(profiles: &[(String, String)]) -> (r: (
    Option<String>,
    Option<String>,
))
    ensures
        r.0 is Some <==> one_calibration_version(profiles@),
        r.0 matches Some(version) ==> version@ == profiles@[0].0@,
        r.1 is Some <==> profiles@.len() == 1,
        r.1 matches Some(digest) ==> digest@ == profiles@[0].1@,
{
    let n = profiles.len();
    if n == 0 {
        return (None, None);
    }
    let first = &profiles[0].0;
    let mut shared = true;
    let mut i: usize = 1;
    while i < n
        invariant
            n == profiles@.len(),
            1 <= i <= n,
            *first == profiles@[0].0,
            shared == forall|k: int| 0 <= k < i ==> (#[trigger] profiles@[k]).0@ == profiles@[0].0@,
        decreases n - i,
    {
        let same = text_eq(profiles[i].0.as_str(), first.as_str());
        proof {
            if shared && same {
                assert forall|k: int| 0 <= k < i + 1 implies (#[trigger] profiles@[k]).0@
                    == profiles@[0].0@ by {}
            }
        }
        shared = shared && same;
        i = i + 1;
    }
    let version = if shared {
        Some(first.clone())
    } else {
        None
    };
    let digest = if n == 1 {
        Some(profiles[0].1.clone())
    } else {
        None
    };
    (version, digest)
}

/// The latest close among the scales' last bars, and never before the epoch.
pub open spec fn is_watermark(closes: Seq<i64>, w: i64) -> bool {
    &&& w >= 0
    &&& forall|i: int| 0 <= i < closes.len() ==> #[trigger] closes[i] <= w
    &&& (w == 0 || exists|i: int| 0 <= i < closes.len() && #[trigger] closes[i] == w)
}

/// The data watermark of a signal: the greatest of its scales' last closes,
/// starting from zero.
pub fn data_watermark(closes: &[i64]) -> (r: i64)
    ensures
        is_watermark(closes@, r),
{
    let mut w: i64 = 0;
    let mut i: usize = 0;
    while i < closes.len()
        invariant
            i <= closes@.len(),
            is_watermark(closes@.subrange(0, i as int), w),
        decreases closes@.len() - i,
    {
        let ghost before = closes@.subrange(0, i as int);
        let ghost after = closes@.subrange(0, i + 1);
        assert(forall|k: int| 0 <= k < i ==> after[k] == before[k]);
        if closes[i] > w {
            w = closes[i];
            assert(after[i as int] == w);
        } else if w != 0 {
            let ghost k = choose|k: int| 0 <= k < before.len() && #[trigger] before[k] == w;
            assert(after[k] == w);
        }
        i = i + 1;
    }
    assert(closes@.subrange(0, closes@.len() as int) =~= closes@);
    w
}

} // verus!
