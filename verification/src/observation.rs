//! The checks a closed-bar series must pass before the observation
//! interface maps it to kernel observations.

use vstd::prelude::*;
use crate::contracts::Timeframe;
use crate::text::text_eq;

verus! {

/// Version of the frozen observation interface.
pub const OBSERVATION_INTERFACE_VERSION: &'static str = "financial_observation_interface_v1";

/// Why a bar series cannot be mapped.
#[derive(Debug, Clone, Copy, PartialEq, Eq, Structural)]
pub enum ObservationAdapterError {
    InsufficientBars,
    OpenBar,
    MixedSeries,
    NonIncreasingTimestamps,
    InvalidPrice,
}

impl ObservationAdapterError {
    /// Describes the error.
    pub fn message(&self) -> (r: &'static str)
        ensures
            r@ == adapter_error_text(*self)@,
    {
        adapter_error_text(*self)
    }
}

#[verifier::allow_in_spec]
pub fn adapter_error_text(error: ObservationAdapterError) -> &'static str
    returns
        (match error {
            ObservationAdapterError::InsufficientBars => "at least three closed bars are required",
            ObservationAdapterError::OpenBar => "all input bars must be closed",
            ObservationAdapterError::MixedSeries => "bars must have one instrument and one timeframe",
            ObservationAdapterError::NonIncreasingTimestamps => "bar timestamps must be strictly increasing",
            ObservationAdapterError::InvalidPrice =>
                "prices used by the observation interface must be positive and finite",
        }),
{
    match error {
        ObservationAdapterError::InsufficientBars => "at least three closed bars are required",
        ObservationAdapterError::OpenBar => "all input bars must be closed",
        ObservationAdapterError::MixedSeries => "bars must have one instrument and one timeframe",
        ObservationAdapterError::NonIncreasingTimestamps => "bar timestamps must be strictly increasing",
        ObservationAdapterError::InvalidPrice =>
            "prices used by the observation interface must be positive and finite",
    }
}

/// What the series checks read of a bar.
#[derive(Debug, Clone, PartialEq, Eq)]
pub struct BarHeader {
    pub instrument_id: String,
    pub timeframe: Timeframe,
    pub close_time_ns: i64,
    pub is_closed: bool,
}

/// Bar `i` belongs to the series of the first bar.
pub open spec fn same_series(bars: Seq<BarHeader>, i: int) -> bool {
    bars[i].instrument_id@ == bars[0].instrument_id@ && bars[i].timeframe == bars[0].timeframe
}

/// Bar `i` closes strictly before bar `i + 1`.
pub open spec fn step_increases(bars: Seq<BarHeader>, i: int) -> bool {
    bars[i].close_time_ns < bars[i + 1].close_time_ns
}

/// The first problem of a series, in the order the checks run; the price
/// check, on floating-point prices, comes after these.
pub open spec fn series_problem(bars: Seq<BarHeader>) -> Option<ObservationAdapterError> {
    if bars.len() < 3 {
        Some(ObservationAdapterError::InsufficientBars)
    } else if exists|i: int| 0 <= i < bars.len() && !(#[trigger] bars[i]).is_closed {
        Some(ObservationAdapterError::OpenBar)
    } else if exists|i: int| 0 <= i < bars.len() && !#[trigger] same_series(bars, i) {
        Some(ObservationAdapterError::MixedSeries)
    } else if exists|i: int| 0 <= i && i + 1 < bars.len() && !#[trigger] step_increases(bars, i) {
        Some(ObservationAdapterError::NonIncreasingTimestamps)
    } else {
        None
    }
}

/// Checks that a series has at least three closed bars of one instrument
/// and timeframe, with strictly increasing close times.
pub fn check_bar_series(bars: &[BarHeader]) -> (r: Result<(), ObservationAdapterError>)
    ensures
        match series_problem(bars@) {
            Some(e) => r == Err::<(), ObservationAdapterError>(e),
            None => r is Ok,
        },
{
    let n = bars.len();
    if n < 3 {
        return Err(ObservationAdapterError::InsufficientBars);
    }
    let mut i: usize = 0;
    while i < n
        invariant
            n == bars@.len(),
            n >= 3,
            i <= n,
            forall|k: int| 0 <= k < i ==> (#[trigger] bars@[k]).is_closed,
        decreases n - i,
    {
        if !bars[i].is_closed {
            assert(!bars@[i as int].is_closed);
            return Err(ObservationAdapterError::OpenBar);
        }
        i = i + 1;
    }
    let first = &bars[0];
    let mut i: usize = 0;
    while i < n
        invariant
            n == bars@.len(),
            n >= 3,
            i <= n,
            forall|k: int| 0 <= k < n ==> (#[trigger] bars@[k]).is_closed,
            *first == bars@[0],
            forall|k: int| 0 <= k < i ==> #[trigger] same_series(bars@, k),
        decreases n - i,
    {
        if !text_eq(bars[i].instrument_id.as_str(), first.instrument_id.as_str())
            || bars[i].timeframe != first.timeframe {
            assert(!same_series(bars@, i as int));
            return Err(ObservationAdapterError::MixedSeries);
        }
        i = i + 1;
    }
    let mut i: usize = 0;
    while i + 1 < n
        invariant
            n == bars@.len(),
            n >= 3,
            i + 1 <= n,
            forall|k: int| 0 <= k < n ==> (#[trigger] bars@[k]).is_closed,
            forall|k: int| 0 <= k < n ==> #[trigger] same_series(bars@, k),
            forall|k: int| 0 <= k < i ==> #[trigger] step_increases(bars@, k),
        decreases n - i,
    {
        if bars[i].close_time_ns >= bars[i + 1].close_time_ns {
            assert(!step_increases(bars@, i as int));
            return Err(ObservationAdapterError::NonIncreasingTimestamps);
        }
        i = i + 1;
    }
    Ok(())
}

} // verus!
