use financial_signal::contracts::{Instrument, Timeframe};
use financial_signal::dynamics::{variant_label, DynamicsVariant};
use financial_signal::resolver::{AssetResolver, Resolution};
use financial_signal::service::{
    calibration_file, default_timeframe, profile_file_name, timeframe_name, DataSourcePreference,
    ServiceError,
};

fn instrument(query: &str) -> Instrument {
    match AssetResolver::default().resolve(query) {
        Resolution::Found { instrument } => instrument,
        _ => panic!("instrument must resolve"),
    }
}

#[test]
fn profile_file_names_are_file_safe() {
    assert_eq!(
        profile_file_name("crypto:binance:BTCUSDT", Timeframe::D1),
        "crypto_binance_BTCUSDT_D1.resolution.json"
    );
    assert_eq!(
        profile_file_name("index:massive:SPX", Timeframe::W1),
        "index_massive_SPX_W1.resolution.json"
    );
}

#[test]
fn corpus_files_for_served_instruments() {
    assert_eq!(calibration_file(&instrument("BTC")), Ok("btc_calib.csv"));
    assert_eq!(calibration_file(&instrument("XRP")), Ok("xrp_calib.csv"));
    assert_eq!(calibration_file(&instrument("GOLD")), Ok("gold_calib.csv"));
    assert_eq!(calibration_file(&instrument("NASDAQ")), Ok("nasdaq_calib.csv"));
    assert_eq!(calibration_file(&instrument("SP500")), Ok("sp500_calib.csv"));
    assert_eq!(
        calibration_file(&instrument("AAPL")),
        Err(ServiceError::CorpusMapping("AAPL".to_string()))
    );
}

#[test]
fn service_defaults() {
    assert_eq!(default_timeframe(), Timeframe::D1);
    assert_eq!(DataSourcePreference::default(), DataSourcePreference::Auto);
    assert_eq!(timeframe_name(Timeframe::H4), "H4");
}

#[test]
fn dynamics_variants_are_nested_and_labelled() {
    let all = DynamicsVariant::all();
    assert_eq!(
        all,
        [
            DynamicsVariant::A,
            DynamicsVariant::B,
            DynamicsVariant::C,
            DynamicsVariant::D
        ]
    );
    assert!(all.windows(2).all(|pair| pair[0] < pair[1]));
    assert_eq!(variant_label(DynamicsVariant::A), "A_SNAPSHOT");
    assert_eq!(DynamicsVariant::D.label(), "D_MULTISCALE_DYNAMICS");
}

use financial_signal::contracts::RuntimeStatus;
use financial_signal::service::{
    data_response_reason, data_response_status, plan_financial_data, DataSource,
    FinancialDataRequest,
};

fn request(asset: &str, timeframe: Timeframe, source: DataSourcePreference) -> FinancialDataRequest {
    FinancialDataRequest {
        asset: asset.into(),
        timeframe,
        source,
    }
}

#[test]
fn unsupported_intraday_corpus_request_fails_explicitly() {
    let request = request("BTC", Timeframe::M1, DataSourcePreference::SuppliedCorpus);
    assert_eq!(
        plan_financial_data(&AssetResolver::default(), &request),
        Err(ServiceError::Timeframe)
    );
}

#[test]
fn data_sources_follow_preference_and_venue() {
    let resolver = AssetResolver::default();
    let live = plan_financial_data(&resolver, &request("BTC", Timeframe::D1, DataSourcePreference::Auto)).unwrap();
    assert_eq!(live.source, DataSource::BinanceSpot);
    assert_eq!(live.instrument.symbol, "BTCUSDT");
    let massive = plan_financial_data(&resolver, &request("AAPL", Timeframe::W1, DataSourcePreference::Auto)).unwrap();
    assert_eq!(massive.source, DataSource::MassiveRest);
    let corpus = plan_financial_data(&resolver, &request("gold", Timeframe::D1, DataSourcePreference::SuppliedCorpus)).unwrap();
    assert_eq!(corpus.source, DataSource::SuppliedCorpus { file: "gold_calib.csv".into() });
    assert_eq!(
        plan_financial_data(&resolver, &request("AAPL", Timeframe::D1, DataSourcePreference::SuppliedCorpus)),
        Err(ServiceError::CorpusMapping("AAPL".into()))
    );
    assert_eq!(
        plan_financial_data(&resolver, &request("DOGE", Timeframe::D1, DataSourcePreference::Auto)),
        Err(ServiceError::Asset("DOGE".into()))
    );
}

#[test]
fn data_response_status_and_reason() {
    assert_eq!(data_response_status(true), RuntimeStatus::Okay);
    assert_eq!(data_response_status(false), RuntimeStatus::StaleData);
    assert_eq!(
        data_response_reason("binance_spot", true),
        "deterministic structural snapshot from the latest closed binance_spot D1 bars"
    );
    assert_eq!(
        data_response_reason("supplied_corpus", false),
        "deterministic structural snapshot from the supplied closed-bar corpus"
    );
    assert_eq!(
        ServiceError::CorpusMapping("AAPL".into()).message(),
        "no corpus mapping for instrument AAPL"
    );
    assert_eq!(
        ServiceError::Timeframe.message(),
        "only D1 and W1 are available from the supplied corpus"
    );
}

#[test]
fn service_errors_map_to_http_statuses() {
    assert_eq!(ServiceError::Timeframe.http_status(), 400);
    assert_eq!(ServiceError::Asset("DOGE".into()).http_status(), 400);
    assert_eq!(ServiceError::CorpusMapping("AAPL".into()).http_status(), 400);
    let failed = ServiceError::Pipeline("disk".into());
    assert_eq!(failed.http_status(), 503);
    assert_eq!(failed.public_message(), "financial data pipeline unavailable");
    assert_eq!(
        ServiceError::CorpusMapping("AAPL".into()).public_message(),
        "no corpus mapping for instrument AAPL"
    );
}
