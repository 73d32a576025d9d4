//! Versioned market contracts: explicit availability, timeframes,
//! instruments and exact basis-point probabilities.

use vstd::prelude::*;

verus! {

/// Whether a value is present, absent, meaningless for the instrument, or stale.
#[derive(Debug, Clone, Copy, PartialEq, Eq, Structural)]
pub enum AvailabilityStatus {
    Available,
    Unavailable,
    NotApplicable,
    Stale,
}

/// A value together with its explicit availability; a missing value is never zero.
#[derive(Debug, Clone, PartialEq)]
pub struct AvailableValue<T> {
    pub value: Option<T>,
    pub availability: AvailabilityStatus,
}

impl<T> AvailableValue<T> {
    /// A value is present exactly when its status says `Available`.
    pub open spec fn is_consistent(&self) -> bool {
        (self.availability == AvailabilityStatus::Available) == self.value.is_some()
    }

    pub fn available(value: T) -> (r: Self)
        ensures
            r.value == Some(value),
            r.availability == AvailabilityStatus::Available,
    {
        Self { value: Some(value), availability: AvailabilityStatus::Available }
    }

    pub fn unavailable() -> (r: Self)
        ensures
            r.value.is_none(),
            r.availability == AvailabilityStatus::Unavailable,
    {
        Self { value: None, availability: AvailabilityStatus::Unavailable }
    }

    pub fn not_applicable() -> (r: Self)
        ensures
            r.value.is_none(),
            r.availability == AvailabilityStatus::NotApplicable,
    {
        Self { value: None, availability: AvailabilityStatus::NotApplicable }
    }

    /// Fails closed when the status and the presence of a value disagree.
    pub fn validate(&self) -> (r: Result<(), ContractError>)
        ensures
            r == (if self.is_consistent() {
                Ok::<(), ContractError>(())
            } else {
                Err(ContractError::AvailabilityMismatch)
            }),
    {
        let present = self.value.is_some();
        match self.availability {
            AvailabilityStatus::Available => {
                if present {
                    Ok(())
                } else {
                    Err(ContractError::AvailabilityMismatch)
                }
            },
            _ => {
                if present {
                    Err(ContractError::AvailabilityMismatch)
                } else {
                    Ok(())
                }
            },
        }
    }
}

#[derive(Debug, Clone, Copy, PartialEq, Eq, Structural)]
pub enum AssetClass {
    Crypto,
    Stock,
    Index,
    Forex,
    Futures,
    Commodity,
}

#[derive(Debug, Clone, Copy, PartialEq, Eq, Structural)]
pub enum Timeframe {
    M1,
    M5,
    H1,
    H4,
    D1,
    W1,
}

/// Nominal bar length in seconds.
pub open spec fn timeframe_seconds(timeframe: Timeframe) -> u64 {
    match timeframe {
        Timeframe::M1 => 60,
        Timeframe::M5 => 300,
        Timeframe::H1 => 3_600,
        Timeframe::H4 => 14_400,
        Timeframe::D1 => 86_400,
        Timeframe::W1 => 604_800,
    }
}

impl Timeframe {
    pub fn nominal_seconds(self) -> (r: u64)
        ensures
            r == timeframe_seconds(self),
    {
        match self {
            Timeframe::M1 => 60,
            Timeframe::M5 => 300,
            Timeframe::H1 => 3_600,
            Timeframe::H4 => 14_400,
            Timeframe::D1 => 86_400,
            Timeframe::W1 => 604_800,
        }
    }
}

/// Each timeframe is a whole multiple of the one before it, so every coarser
/// bar is made of a whole number of finer bars.
pub proof fn lemma_timeframes_nest()
    ensures
        timeframe_seconds(Timeframe::M5) == 5 * timeframe_seconds(Timeframe::M1),
        timeframe_seconds(Timeframe::H1) == 12 * timeframe_seconds(Timeframe::M5),
        timeframe_seconds(Timeframe::H4) == 4 * timeframe_seconds(Timeframe::H1),
        timeframe_seconds(Timeframe::D1) == 6 * timeframe_seconds(Timeframe::H4),
        timeframe_seconds(Timeframe::W1) == 7 * timeframe_seconds(Timeframe::D1),
{
}

#[derive(Debug, Clone, Copy, PartialEq, Eq, Structural)]
pub enum SessionCalendar {
    ContinuousUtc,
    ExchangeSession,
}

#[derive(Debug, PartialEq, Eq)]
pub struct Instrument {
    pub instrument_id: String,
    pub asset_class: AssetClass,
    pub symbol: String,
    pub base: Option<String>,
    pub quote: Option<String>,
    pub venue: String,
    pub timezone: String,
    pub session_calendar: SessionCalendar,
    pub price_precision: Option<u8>,
    pub quantity_precision: Option<u8>,
    pub live_data_capable: bool,
    pub historical_data_capable: bool,
}

/// Copies an optional string, keeping it exactly.
pub fn clone_optional_string(value: &Option<String>) -> (r: Option<String>)
    ensures
        r == *value,
{
    match value {
        Some(text) => Some(text.clone()),
        None => None,
    }
}

impl Clone for Instrument {
    fn clone(&self) -> (r: Self)
        ensures
            r == *self,
    {
        Instrument {
            instrument_id: self.instrument_id.clone(),
            asset_class: self.asset_class,
            symbol: self.symbol.clone(),
            base: clone_optional_string(&self.base),
            quote: clone_optional_string(&self.quote),
            venue: self.venue.clone(),
            timezone: self.timezone.clone(),
            session_calendar: self.session_calendar,
            price_precision: self.price_precision,
            quantity_precision: self.quantity_precision,
            live_data_capable: self.live_data_capable,
            historical_data_capable: self.historical_data_capable,
        }
    }
}

#[derive(Debug, Clone, Copy, PartialEq, Eq, Structural)]
pub enum Direction {
    Up,
    Down,
    Range,
    Unresolved,
}

#[derive(Debug, Clone, Copy, PartialEq, Eq, Structural)]
pub enum RuntimeStatus {
    Okay,
    Bootstrapping,
    Unresolved,
    InsufficientData,
    InsufficientCalibration,
    StaleData,
    ProviderDivergence,
    AmbiguousAsset,
    UnsupportedAsset,
    EngineError,
}

#[derive(Debug, Clone, Copy, PartialEq, Eq, Structural)]
pub enum SignalMode {
    Confirmed,
    LivePreview,
}

#[derive(Debug, Clone, Copy, PartialEq, Eq, Structural)]
pub enum CalibrationScope {
    Instrument,
    AssetClass,
    Global,
    Unavailable,
}

/// Direction probabilities in integer basis points.
#[derive(Debug, Clone, Copy, PartialEq, Eq, Structural)]
pub struct ProbabilitiesBp {
    pub up: u16,
    pub range: u16,
    pub down: u16,
}

impl ProbabilitiesBp {
    /// The three probabilities add up to exactly one.
    pub open spec fn sums_to_one(&self) -> bool {
        self.up + self.range + self.down == 10_000
    }

    pub fn validate(&self) -> (r: Result<(), ContractError>)
        ensures
            r == (if self.sums_to_one() {
                Ok::<(), ContractError>(())
            } else {
                Err(ContractError::ProbabilitySum)
            }),
    {
        if self.up as u32 + self.range as u32 + self.down as u32 == 10_000 {
            Ok(())
        } else {
            Err(ContractError::ProbabilitySum)
        }
    }
}

#[derive(Debug, Clone, Copy, PartialEq, Eq, Structural)]
pub struct Horizon {
    pub p25_bars: Option<u32>,
    pub median_bars: Option<u32>,
    pub p75_bars: Option<u32>,
    pub p25_seconds: Option<u64>,
    pub median_seconds: Option<u64>,
    pub p75_seconds: Option<u64>,
}

#[derive(Debug, Clone, PartialEq, Eq)]
pub struct Provenance {
    pub primary_provider: String,
    pub secondary_provider: Option<String>,
    pub source_watermark: String,
    pub input_window_sha256: String,
    pub engine_version: String,
    pub engine_config_sha256: String,
    pub structural_vector_version: String,
    pub resolution_calibration_version: Option<String>,
    pub resolution_profile_sha256: Option<String>,
    pub runtime_config_sha256: String,
    pub response_sha256: Option<String>,
}

#[derive(Debug, Clone, Copy, PartialEq, Eq, Structural)]
pub enum ContractError {
    AvailabilityMismatch,
    MissingIdentity,
    InvalidTimeRange,
    NonFinitePrice,
    MalformedOhlc,
    ProbabilitySum,
    BasisPointsRange,
    SchemaVersion,
}

impl ContractError {
    /// Human-readable description of the error.
    pub fn message(&self) -> (r: &'static str)
        ensures
            r@ == contract_error_text(*self)@,
    {
        contract_error_text(*self)
    }
}

/// The fixed description of each contract error.
#[verifier::allow_in_spec]
pub fn contract_error_text(error: ContractError) -> &'static str
    returns
        (match error {
            ContractError::AvailabilityMismatch => "availability and value do not agree",
            ContractError::MissingIdentity => "instrument/source identity is missing",
            ContractError::InvalidTimeRange => "observation close must be after open",
            ContractError::NonFinitePrice => "OHLC contains a non-finite value",
            ContractError::MalformedOhlc => "OHLC ordering is malformed",
            ContractError::ProbabilitySum =>
                "direction probabilities must sum to exactly 10000 basis points",
            ContractError::BasisPointsRange => "basis-point value is outside 0..=10000",
            ContractError::SchemaVersion => "unsupported response schema version",
        }),
{
    match error {
        ContractError::AvailabilityMismatch => "availability and value do not agree",
        ContractError::MissingIdentity => "instrument/source identity is missing",
        ContractError::InvalidTimeRange => "observation close must be after open",
        ContractError::NonFinitePrice => "OHLC contains a non-finite value",
        ContractError::MalformedOhlc => "OHLC ordering is malformed",
        ContractError::ProbabilitySum =>
            "direction probabilities must sum to exactly 10000 basis points",
        ContractError::BasisPointsRange => "basis-point value is outside 0..=10000",
        ContractError::SchemaVersion => "unsupported response schema version",
    }
}

} // verus!
