use financial_signal::contracts::{Direction, RuntimeStatus, SignalMode, Timeframe};
use financial_signal::signal::{
    agreement_label, default_mode, default_quote, default_venue, determine_cross_scale,
    signal_response_header, validate_native_request, FinancialSignalRequest, ScaleReading,
};

fn valid_native_request() -> FinancialSignalRequest {
    FinancialSignalRequest {
        asset: "BTC".into(),
        venue: "auto".into(),
        quote: "auto".into(),
        timeframes: vec![Timeframe::D1],
        mode: SignalMode::Confirmed,
        reference_asset: None,
    }
}

#[test]
fn native_request_rejects_controls_the_endpoint_does_not_apply() {
    assert!(validate_native_request(&valid_native_request()).is_ok());

    let mut request = valid_native_request();
    request.venue = "binance".into();
    assert_eq!(
        validate_native_request(&request).unwrap_err(),
        "venue overrides are not supported; use `venue: \"auto\"`"
    );

    let mut request = valid_native_request();
    request.quote = "USD".into();
    assert_eq!(
        validate_native_request(&request).unwrap_err(),
        "quote overrides are not supported; use `quote: \"auto\"`"
    );

    let mut request = valid_native_request();
    request.reference_asset = Some("SPX".into());
    assert_eq!(
        validate_native_request(&request).unwrap_err(),
        "reference_asset is not implemented on this endpoint"
    );

    let mut request = valid_native_request();
    request.mode = SignalMode::LivePreview;
    assert_eq!(
        validate_native_request(&request).unwrap_err(),
        "LIVE_PREVIEW is not implemented on this closed-corpus endpoint"
    );

    let mut request = valid_native_request();
    request.timeframes = vec![Timeframe::D1, Timeframe::D1];
    assert_eq!(
        validate_native_request(&request).unwrap_err(),
        "duplicate timeframes are not supported"
    );
}

#[test]
fn native_request_accepts_only_daily_and_weekly() {
    let mut request = valid_native_request();
    request.timeframes = vec![Timeframe::D1, Timeframe::H4];
    assert_eq!(
        validate_native_request(&request).unwrap_err(),
        "native supplied-corpus requests support only D1 and W1"
    );
    request.timeframes = vec![Timeframe::W1, Timeframe::D1];
    assert!(validate_native_request(&request).is_ok());
    request.timeframes = vec![];
    assert!(validate_native_request(&request).is_ok());
}

#[test]
fn request_timeframe_resolution() {
    let req = FinancialSignalRequest {
        asset: "BTC".into(),
        venue: "auto".into(),
        quote: "auto".into(),
        timeframes: vec![Timeframe::D1],
        mode: SignalMode::Confirmed,
        reference_asset: None,
    };

    let supported = vec![Timeframe::D1, Timeframe::W1];
    let resolved = req.resolve_timeframes(&supported);
    assert_eq!(resolved, vec![Timeframe::D1]);

    let req_empty = FinancialSignalRequest {
        asset: "BTC".into(),
        venue: "auto".into(),
        quote: "auto".into(),
        timeframes: vec![],
        mode: SignalMode::Confirmed,
        reference_asset: None,
    };
    let resolved = req_empty.resolve_timeframes(&supported);
    assert_eq!(resolved, supported);
}

#[test]
fn unsupported_requested_timeframes_are_dropped() {
    let mut req = valid_native_request();
    req.timeframes = vec![Timeframe::H1, Timeframe::W1, Timeframe::M5];
    assert_eq!(
        req.resolve_timeframes(&[Timeframe::D1, Timeframe::W1]),
        vec![Timeframe::W1]
    );
}

#[test]
fn request_defaults() {
    assert_eq!(default_venue(), "auto");
    assert_eq!(default_quote(), "auto");
    assert_eq!(default_mode(), SignalMode::Confirmed);
}

#[test]
fn cross_scale_majority_works() {
    let cross = determine_cross_scale(&[
        (Timeframe::D1, Direction::Up),
        (Timeframe::W1, Direction::Up),
    ]);
    assert_eq!(cross.dominant_direction, Direction::Up);
    assert_eq!(cross.agreement, "UNANIMOUS");
    assert_eq!(cross.agreeing_scales.len(), 2);
}

#[test]
fn cross_scale_split_works() {
    let cross = determine_cross_scale(&[
        (Timeframe::D1, Direction::Up),
        (Timeframe::W1, Direction::Down),
    ]);
    assert_eq!(cross.agreement, "SPLIT");
    assert_eq!(cross.agreeing_scales.len(), 1);
    assert_eq!(cross.disagreeing_scales.len(), 1);
}

#[test]
fn cross_scale_without_scales_is_unavailable() {
    let cross = determine_cross_scale(&[]);
    assert_eq!(cross.dominant_direction, Direction::Unresolved);
    assert_eq!(cross.agreement, "UNAVAILABLE");
    assert!(cross.agreeing_scales.is_empty());
    assert!(cross.disagreeing_scales.is_empty());
    assert_eq!(cross.dominant_scale, None);
}

#[test]
fn cross_scale_partitions_every_scale() {
    let readings = [
        (Timeframe::D1, Direction::Down),
        (Timeframe::W1, Direction::Down),
        (Timeframe::H4, Direction::Up),
    ];
    let cross = determine_cross_scale(&readings);
    assert_eq!(cross.dominant_direction, Direction::Down);
    assert_eq!(cross.agreement, "MAJORITY");
    assert_eq!(
        cross.agreeing_scales.len() + cross.disagreeing_scales.len(),
        readings.len()
    );
    assert_eq!(cross.agreeing_scales, vec![Timeframe::D1, Timeframe::W1]);
    assert_eq!(cross.disagreeing_scales, vec![Timeframe::H4]);
    assert_eq!(cross.dominant_scale, Some(Timeframe::D1));
}

#[test]
fn agreement_labels() {
    assert_eq!(agreement_label(2, 0), "UNANIMOUS");
    assert_eq!(agreement_label(2, 1), "MAJORITY");
    assert_eq!(agreement_label(1, 1), "SPLIT");
}

use financial_signal::signal::determine_dominant_direction;

#[test]
fn dominant_direction_needs_a_strict_majority() {
    assert_eq!(
        determine_dominant_direction(&[(Timeframe::D1, Direction::Up), (Timeframe::W1, Direction::Up)]),
        Direction::Up
    );
    assert_eq!(
        determine_dominant_direction(&[(Timeframe::D1, Direction::Up), (Timeframe::W1, Direction::Down)]),
        Direction::Unresolved
    );
    assert_eq!(
        determine_dominant_direction(&[
            (Timeframe::D1, Direction::Range),
            (Timeframe::W1, Direction::Unresolved),
            (Timeframe::H4, Direction::Unresolved),
        ]),
        Direction::Unresolved
    );
    assert_eq!(determine_dominant_direction(&[]), Direction::Unresolved);
}

#[test]
fn response_without_scales_has_insufficient_data() {
    let header = signal_response_header(&[]);
    assert_eq!(header.status, RuntimeStatus::InsufficientData);
    assert_eq!(header.as_of_ns, 0);
    assert_eq!(header.direction, Direction::Unresolved);
    assert_eq!(header.label, "UNAVAILABLE");
    assert!(header.cross_scale.is_none());
    assert!(header.sample_support.is_empty());
}

#[test]
fn response_follows_the_cross_scale_composition() {
    let scales = [
        ScaleReading { timeframe: Timeframe::D1, direction: Direction::Down, as_of_ns: 9, bars_used: 30 },
        ScaleReading { timeframe: Timeframe::W1, direction: Direction::Down, as_of_ns: 7, bars_used: 10 },
    ];
    let header = signal_response_header(&scales);
    assert_eq!(header.status, RuntimeStatus::Okay);
    assert_eq!(header.as_of_ns, 9);
    assert_eq!(header.direction, Direction::Down);
    assert_eq!(header.label, "Down");
    assert_eq!(header.sample_support, vec![30, 10]);
    let cross = header.cross_scale.unwrap();
    assert_eq!(cross.agreement, "UNANIMOUS");
    assert_eq!(cross.dominant_scale, Some(Timeframe::D1));

    let split = signal_response_header(&[
        ScaleReading { timeframe: Timeframe::D1, direction: Direction::Up, as_of_ns: -5, bars_used: 1 },
        ScaleReading { timeframe: Timeframe::W1, direction: Direction::Down, as_of_ns: -8, bars_used: 2 },
    ]);
    assert_eq!(split.as_of_ns, -5);
    assert_eq!(split.direction, Direction::Unresolved);
    assert_eq!(split.label, "Unresolved");
}
