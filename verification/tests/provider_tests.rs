use financial_signal::contracts::{AssetClass, Instrument, SessionCalendar};
use financial_signal::provider::{
    ensure_ok, massive_route, massive_standard_symbol, massive_venue_check, select_gold_contract,
    MassiveRoute, ProviderError,
};
use financial_signal::resolver::{AssetResolver, Resolution};

fn instrument(query: &str) -> Instrument {
    match AssetResolver::default().resolve(query) {
        Resolution::Found { instrument } => instrument,
        _ => panic!("instrument must resolve"),
    }
}

fn listing(ticker: &str, days: i64) -> (Option<String>, Option<i64>) {
    (Some(ticker.to_string()), Some(days))
}

#[test]
fn gold_contract_avoids_imminent_expiry() {
    let contracts = vec![listing("GCU6", 5), listing("GCV6", 35), listing("GCZ6", 70)];
    assert_eq!(select_gold_contract(&contracts).unwrap(), "GCV6");
}

#[test]
fn gold_contract_falls_back_to_unexpired() {
    let contracts = vec![listing("GCU6", 5), listing("GCQ6", 3), listing("GCX", -1)];
    assert_eq!(select_gold_contract(&contracts).unwrap(), "GCQ6");
}

#[test]
fn gold_contract_ties_go_by_ticker_and_incomplete_listings_are_skipped() {
    let contracts = vec![
        listing("GCZ6", 40),
        (None, Some(21)),
        (Some("GCA".to_string()), None),
        listing("GCM6", 40),
    ];
    assert_eq!(select_gold_contract(&contracts).unwrap(), "GCM6");
}

#[test]
fn no_active_gold_contract() {
    let contracts = vec![listing("GCH6", -2), (None, Some(30))];
    assert_eq!(
        select_gold_contract(&contracts),
        Err(ProviderError::Payload("no active GC futures contract".to_string()))
    );
    assert!(select_gold_contract(&[]).is_err());
}

#[test]
fn massive_symbols_by_asset_class() {
    assert_eq!(massive_standard_symbol(&instrument("AAPL")).unwrap(), "AAPL");
    assert_eq!(massive_standard_symbol(&instrument("SP500")).unwrap(), "I:SPX");
    assert_eq!(massive_standard_symbol(&instrument("EURUSD")).unwrap(), "C:EURUSD");
    assert_eq!(
        massive_standard_symbol(&instrument("GOLD")),
        Err(ProviderError::Unsupported("futures:massive:GC".to_string()))
    );
}

#[test]
fn massive_routes() {
    assert_eq!(massive_route(&instrument("NASDAQ")), Ok(MassiveRoute::Standard));
    assert_eq!(massive_route(&instrument("GOLD")), Ok(MassiveRoute::Gold));
    assert_eq!(
        massive_route(&instrument("BTC")),
        Err(ProviderError::Unsupported("crypto:binance:BTCUSDT".to_string()))
    );
    let mut silver = instrument("GOLD");
    silver.symbol = "SI".to_string();
    silver.instrument_id = "futures:massive:SI".to_string();
    assert_eq!(
        massive_route(&silver),
        Err(ProviderError::Unsupported("futures:massive:SI".to_string()))
    );
}

#[test]
fn massive_serves_only_its_venue() {
    assert!(massive_venue_check(&instrument("MSFT")).is_ok());
    assert_eq!(
        massive_venue_check(&instrument("XRP")),
        Err(ProviderError::Unsupported("crypto:binance:XRPUSDT".to_string()))
    );
    let custom = Instrument {
        instrument_id: "commodity:x:OIL".to_string(),
        asset_class: AssetClass::Commodity,
        symbol: "OIL".to_string(),
        base: None,
        quote: None,
        venue: "massive".to_string(),
        timezone: "UTC".to_string(),
        session_calendar: SessionCalendar::ExchangeSession,
        price_precision: None,
        quantity_precision: None,
        live_data_capable: false,
        historical_data_capable: true,
    };
    assert!(massive_venue_check(&custom).is_ok());
    assert!(massive_route(&custom).is_err());
}

#[test]
fn massive_payload_status() {
    assert!(ensure_ok(Some("OK")).is_ok());
    assert_eq!(
        ensure_ok(Some("ERROR")),
        Err(ProviderError::Payload("Massive response status is ERROR".to_string()))
    );
    assert_eq!(
        ensure_ok(None),
        Err(ProviderError::Payload("missing Massive status".to_string()))
    );
}

use financial_signal::provider::{
    binance_request_check, check_increasing, kline_times, massive_bar_times, trade_count,
};

#[test]
fn unclosed_kline_is_left_out() {
    assert_eq!(kline_times(1000, 1999, 2500), Ok(Some((1_000_000_000, 1_999_000_000))));
    assert_eq!(kline_times(2000, 2999, 2500), Ok(None));
    assert_eq!(kline_times(2000, 2500, 2500), Ok(None));
    assert_eq!(
        kline_times(i64::MAX / 10, 0, 1),
        Err(ProviderError::Payload("open timestamp overflow".to_string()))
    );
    assert_eq!(
        kline_times(0, i64::MIN / 10, 1),
        Err(ProviderError::Payload("close timestamp overflow".to_string()))
    );
}

#[test]
fn massive_daily_bar_closes_before_the_next_day() {
    assert_eq!(
        massive_bar_times(1_700_000_000_000),
        Ok((1_700_000_000_000_000_000, 1_700_086_399_999_999_999))
    );
    assert!(massive_bar_times(i64::MAX / 1000).is_err());
}

#[test]
fn binance_limits_and_ordering() {
    assert!(binance_request_check(&instrument("BTC"), 1000).is_ok());
    assert!(binance_request_check(&instrument("BTC"), 0).is_err());
    assert!(binance_request_check(&instrument("BTC"), 1001).is_err());
    assert_eq!(
        binance_request_check(&instrument("AAPL"), 10),
        Err(ProviderError::Unsupported("stock:massive:AAPL".to_string()))
    );
    assert!(check_increasing(None, 5).is_ok());
    assert!(check_increasing(Some(4), 5).is_ok());
    assert_eq!(
        check_increasing(Some(5), 5),
        Err(ProviderError::Payload("timestamps are not strictly increasing".to_string()))
    );
    assert_eq!(trade_count(7), Ok(7));
    assert_eq!(
        trade_count(-1),
        Err(ProviderError::Payload("negative trade count".to_string()))
    );
}
