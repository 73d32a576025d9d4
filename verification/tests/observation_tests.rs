use financial_signal::contracts::Timeframe;
use financial_signal::observation::{
    check_bar_series, BarHeader, ObservationAdapterError, OBSERVATION_INTERFACE_VERSION,
};

fn bar(id: &str, timeframe: Timeframe, close: i64, closed: bool) -> BarHeader {
    BarHeader {
        instrument_id: id.into(),
        timeframe,
        close_time_ns: close,
        is_closed: closed,
    }
}

#[test]
fn open_bar_fails_closed() {
    let bars = vec![
        bar("a", Timeframe::D1, 1, true),
        bar("a", Timeframe::D1, 2, false),
        bar("a", Timeframe::D1, 3, true),
    ];
    assert_eq!(check_bar_series(&bars), Err(ObservationAdapterError::OpenBar));
}

#[test]
fn series_checks_in_order() {
    let good = vec![
        bar("a", Timeframe::D1, 1, true),
        bar("a", Timeframe::D1, 2, true),
        bar("a", Timeframe::D1, 3, true),
    ];
    assert_eq!(check_bar_series(&good), Ok(()));
    assert_eq!(
        check_bar_series(&good[..2]),
        Err(ObservationAdapterError::InsufficientBars)
    );
    let mixed = vec![
        bar("a", Timeframe::D1, 1, true),
        bar("a", Timeframe::W1, 2, true),
        bar("a", Timeframe::D1, 1, true),
    ];
    assert_eq!(check_bar_series(&mixed), Err(ObservationAdapterError::MixedSeries));
    let repeated = vec![
        bar("a", Timeframe::D1, 1, true),
        bar("a", Timeframe::D1, 2, true),
        bar("a", Timeframe::D1, 2, true),
    ];
    assert_eq!(
        check_bar_series(&repeated),
        Err(ObservationAdapterError::NonIncreasingTimestamps)
    );
    assert_eq!(OBSERVATION_INTERFACE_VERSION, "financial_observation_interface_v1");
    assert_eq!(
        ObservationAdapterError::InvalidPrice.message(),
        "prices used by the observation interface must be positive and finite"
    );
}
