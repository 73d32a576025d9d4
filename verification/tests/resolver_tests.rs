use financial_signal::contracts::{AssetClass, SessionCalendar};
use financial_signal::resolver::{default_catalog, AssetResolver, Resolution};
use financial_signal::text::{normalize, text_eq_ignore_ascii_case, text_lt};

#[test]
fn resolves_known_alias() {
    let result = AssetResolver::default().resolve("btc");
    assert!(
        matches!(result, Resolution::Found { instrument } if instrument.symbol == "BTCUSDT")
    );
}

#[test]
fn never_guesses_ambiguity() {
    let mut entries = default_catalog();
    entries[1].aliases.push("BTC".into());
    assert!(matches!(
        AssetResolver::new(entries).resolve("BTC"),
        Resolution::AmbiguousAsset { .. }
    ));
}

#[test]
fn ambiguity_lists_candidates_by_identifier() {
    let mut entries = default_catalog();
    entries[1].aliases.push("BTC".into());
    match AssetResolver::new(entries).resolve("BTC") {
        Resolution::AmbiguousAsset { candidates } => {
            let ids: Vec<&str> = candidates.iter().map(|c| c.instrument_id.as_str()).collect();
            assert_eq!(ids, vec!["crypto:binance:BTCUSDT", "crypto:binance:XRPUSDT"]);
        }
        other => panic!("expected ambiguity, got {other:?}"),
    }
}

#[test]
fn unknown_asset_is_unsupported_and_echoed() {
    match AssetResolver::default().resolve("doge") {
        Resolution::UnsupportedAsset { query } => assert_eq!(query, "doge"),
        other => panic!("expected unsupported, got {other:?}"),
    }
}

#[test]
fn normalization_ignores_case_and_punctuation() {
    assert_eq!(normalize("s&p 500"), "SP500");
    match AssetResolver::default().resolve("S&P-500") {
        Resolution::Found { instrument } => {
            assert_eq!(instrument.instrument_id, "index:massive:SPX");
            assert_eq!(instrument.asset_class, AssetClass::Index);
            assert_eq!(instrument.session_calendar, SessionCalendar::ExchangeSession);
        }
        other => panic!("expected SPX, got {other:?}"),
    }
    match AssetResolver::default().resolve("gold") {
        Resolution::Found { instrument } => assert_eq!(instrument.symbol, "GC"),
        other => panic!("expected GC, got {other:?}"),
    }
}

#[test]
fn default_catalog_holds_eight_instruments() {
    let catalog = default_catalog();
    assert_eq!(catalog.len(), 8);
    assert_eq!(catalog[0].instrument.instrument_id, "crypto:binance:BTCUSDT");
    assert_eq!(catalog[7].instrument.instrument_id, "futures:massive:GC");
    assert!(catalog.iter().all(|entry| entry.instrument.timezone == "UTC"));
}

#[test]
fn text_order_is_code_point_lexicographic() {
    assert!(text_lt("ABC", "ABD"));
    assert!(text_lt("AB", "ABC"));
    assert!(!text_lt("ABC", "ABC"));
    assert!(!text_lt("b", "a"));
    assert!(text_eq_ignore_ascii_case("Volume", "VOLUME"));
    assert!(!text_eq_ignore_ascii_case("vol", "volume"));
}

#[test]
fn queries_with_the_same_normal_form_get_the_same_answer() {
    let resolver = AssetResolver::default();
    assert_eq!(resolver.resolve("btc"), resolver.resolve(" B-T-C "));
    assert_eq!(resolver.resolve("BTC"), resolver.resolve("b.t.c"));
}
