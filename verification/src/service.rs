//! Single-timeframe financial data requests: their defaults, the corpus file
//! that serves each instrument, and calibration profile file names.

use vstd::prelude::*;
use crate::contracts::{Instrument, RuntimeStatus, Timeframe};
use crate::resolver::{
    lemma_found_is_exclusive, resolution_ok, resolves_to_one, AssetResolver, Resolution,
};
use crate::text::{
    char_is_ascii_alphanumeric, concat, eq_ignore_ascii_case, is_ascii_alphanumeric, push_char,
    push_text, text_eq, text_eq_ignore_ascii_case,
};

verus! {

#[derive(Debug, Clone, PartialEq, Eq)]
pub struct FinancialDataRequest {
    pub asset: String,
    pub timeframe: Timeframe,
    pub source: DataSourcePreference,
}

pub fn default_timeframe() -> (r: Timeframe)
    ensures
        r == Timeframe::D1,
{
    Timeframe::D1
}

/// Where bars come from: a live provider when one serves the instrument, or
/// the supplied closed-bar corpus.
#[derive(Debug, Default, Clone, Copy, PartialEq, Eq, Structural)]
pub enum DataSourcePreference {
    #[default]
    Auto,
    SuppliedCorpus,
}

#[derive(Debug, Clone, PartialEq, Eq)]
pub struct ServiceProvenance {
    pub primary_provider: String,
    pub provider_instrument: Option<String>,
    pub corpus_file: Option<String>,
    pub input_sha256: String,
    pub engine_version: String,
    pub observation_interface_version: String,
}

#[derive(Debug, Clone, PartialEq, Eq)]
pub enum ServiceError {
    Asset(String),
    Timeframe,
    CorpusMapping(String),
    Pipeline(String),
}

/// Debug name of a timeframe.
#[verifier::allow_in_spec]
pub fn timeframe_name(timeframe: Timeframe) -> &'static str
    returns
        (match timeframe {
            Timeframe::M1 => "M1",
            Timeframe::M5 => "M5",
            Timeframe::H1 => "H1",
            Timeframe::H4 => "H4",
            Timeframe::D1 => "D1",
            Timeframe::W1 => "W1",
        }),
{
    match timeframe {
        Timeframe::M1 => "M1",
        Timeframe::M5 => "M5",
        Timeframe::H1 => "H1",
        Timeframe::H4 => "H4",
        Timeframe::D1 => "D1",
        Timeframe::W1 => "W1",
    }
}

/// Every character that is not an ASCII letter or digit becomes `_`.
pub open spec fn file_safe(id: Seq<char>) -> Seq<char> {
    id.map_values(|c: char| if is_ascii_alphanumeric(c) { c } else { '_' })
}

/// File name of the resolution profile of an instrument and timeframe.
pub open spec fn spec_profile_file_name(instrument_id: Seq<char>, timeframe: Timeframe) -> Seq<char> {
    file_safe(instrument_id) + "_"@ + timeframe_name(timeframe)@ + ".resolution.json"@
}

pub fn profile_file_name(instrument_id: &str, timeframe: Timeframe) -> (r: String)
    ensures
        r@ == spec_profile_file_name(instrument_id@, timeframe),
{
    let n = instrument_id.unicode_len();
    let mut out = String::new();
    let mut i: usize = 0;
    while i < n
        invariant
            n == instrument_id@.len(),
            i <= n,
            out@ == file_safe(instrument_id@.subrange(0, i as int)),
        decreases n - i,
    {
        let c = instrument_id.get_char(i);
        if char_is_ascii_alphanumeric(c) {
            push_char(&mut out, c);
        } else {
            push_char(&mut out, '_');
        }
        assert(out@ =~= file_safe(instrument_id@.subrange(0, i + 1)));
        i = i + 1;
    }
    assert(instrument_id@.subrange(0, n as int) =~= instrument_id@);
    out.append("_");
    out.append(timeframe_name(timeframe));
    out.append(".resolution.json");
    out
}

/// Corpus file that serves an instrument symbol.
pub open spec fn corpus_file_for(symbol: Seq<char>) -> Option<Seq<char>> {
    if symbol == "BTCUSDT"@ {
        Some("btc_calib.csv"@)
    } else if symbol == "XRPUSDT"@ {
        Some("xrp_calib.csv"@)
    } else if symbol == "GC"@ {
        Some("gold_calib.csv"@)
    } else if symbol == "NDX"@ {
        Some("nasdaq_calib.csv"@)
    } else if symbol == "SPX"@ {
        Some("sp500_calib.csv"@)
    } else {
        None
    }
}

/// The supplied corpus file for an instrument, or the error naming its symbol.
pub fn calibration_file(instrument: &Instrument) -> (r: Result<&'static str, ServiceError>)
    ensures
        match r {
            Ok(file) => corpus_file_for(instrument.symbol@) == Some(file@),
            Err(error) => corpus_file_for(instrument.symbol@).is_none() && error
                == ServiceError::CorpusMapping(instrument.symbol),
        },
{
    let symbol = instrument.symbol.as_str();
    if text_eq(symbol, "BTCUSDT") {
        Ok("btc_calib.csv")
    } else if text_eq(symbol, "XRPUSDT") {
        Ok("xrp_calib.csv")
    } else if text_eq(symbol, "GC") {
        Ok("gold_calib.csv")
    } else if text_eq(symbol, "NDX") {
        Ok("nasdaq_calib.csv")
    } else if text_eq(symbol, "SPX") {
        Ok("sp500_calib.csv")
    } else {
        Err(ServiceError::CorpusMapping(instrument.symbol.clone()))
    }
}

/// The timeframe a name denotes, ignoring ASCII case.
pub open spec fn timeframe_named(value: Seq<char>) -> Option<Timeframe> {
    if eq_ignore_ascii_case(value, "M1"@) {
        Some(Timeframe::M1)
    } else if eq_ignore_ascii_case(value, "M5"@) {
        Some(Timeframe::M5)
    } else if eq_ignore_ascii_case(value, "H1"@) {
        Some(Timeframe::H1)
    } else if eq_ignore_ascii_case(value, "H4"@) {
        Some(Timeframe::H4)
    } else if eq_ignore_ascii_case(value, "D1"@) {
        Some(Timeframe::D1)
    } else if eq_ignore_ascii_case(value, "W1"@) {
        Some(Timeframe::W1)
    } else {
        None
    }
}

/// Reads a timeframe name such as `d1` or `W1`.
pub fn parse_timeframe(value: &str) -> (r: Result<Timeframe, String>)
    ensures
        match timeframe_named(value@) {
            Some(t) => r matches Ok(parsed) && parsed == t,
            None => r matches Err(message) && message@ == "unsupported timeframe: "@ + value@,
        },
{
    if text_eq_ignore_ascii_case(value, "M1") {
        Ok(Timeframe::M1)
    } else if text_eq_ignore_ascii_case(value, "M5") {
        Ok(Timeframe::M5)
    } else if text_eq_ignore_ascii_case(value, "H1") {
        Ok(Timeframe::H1)
    } else if text_eq_ignore_ascii_case(value, "H4") {
        Ok(Timeframe::H4)
    } else if text_eq_ignore_ascii_case(value, "D1") {
        Ok(Timeframe::D1)
    } else if text_eq_ignore_ascii_case(value, "W1") {
        Ok(Timeframe::W1)
    } else {
        Err(concat("unsupported timeframe: ", value))
    }
}

/// Where the bars of a financial data request come from.
#[derive(Debug, Clone, PartialEq, Eq)]
pub enum DataSource {
    /// Closed daily klines from Binance spot.
    BinanceSpot,
    /// Closed daily aggregates from Massive.
    MassiveRest,
    /// A file of the supplied closed-bar corpus.
    SuppliedCorpus { file: String },
}

/// The instrument a request names and where its bars come from.
#[derive(Debug, Clone, PartialEq, Eq)]
pub struct DataPlan {
    pub instrument: Instrument,
    pub source: DataSource,
}

/// A live provider of the instrument's venue when the request lets the
/// service choose, else the instrument's corpus file; nothing when neither
/// applies.
pub open spec fn source_is(
    source: Option<DataSource>,
    instrument: Instrument,
    preference: DataSourcePreference,
) -> bool {
    if preference == DataSourcePreference::Auto && instrument.venue@ == "binance"@ {
        source == Some(DataSource::BinanceSpot)
    } else if preference == DataSourcePreference::Auto && instrument.venue@ == "massive"@ {
        source == Some(DataSource::MassiveRest)
    } else {
        match corpus_file_for(instrument.symbol@) {
            Some(file) => source matches Some(DataSource::SuppliedCorpus { file: f }) && f@ == file,
            None => source is None,
        }
    }
}

/// The timeframes the service answers for.
pub open spec fn served_timeframe(timeframe: Timeframe) -> bool {
    timeframe == Timeframe::D1 || timeframe == Timeframe::W1
}

/// Plans a financial data request: the asset must name one instrument of
/// the resolver's catalog and the timeframe must be D1 or W1; then the
/// source is chosen.
pub fn plan_financial_data(resolver: &AssetResolver, request: &FinancialDataRequest) -> (r: Result<
    DataPlan,
    ServiceError,
>)
    ensures
        match r {
            Ok(plan) => {
                &&& resolution_ok(
                    Resolution::Found { instrument: plan.instrument },
                    resolver.catalog(),
                    request.asset@,
                )
                &&& served_timeframe(request.timeframe)
                &&& source_is(Some(plan.source), plan.instrument, request.source)
            },
            Err(ServiceError::Asset(asset)) => {
                &&& asset@ == request.asset@
                &&& !resolves_to_one(resolver.catalog(), request.asset@)
            },
            Err(ServiceError::Timeframe) => {
                &&& resolves_to_one(resolver.catalog(), request.asset@)
                &&& !served_timeframe(request.timeframe)
            },
            Err(ServiceError::CorpusMapping(symbol)) => {
                &&& served_timeframe(request.timeframe)
                &&& exists|instrument: Instrument|
                    #[trigger] resolution_ok(
                        Resolution::Found { instrument },
                        resolver.catalog(),
                        request.asset@,
                    ) && symbol@ == instrument.symbol@ && source_is(
                        None,
                        instrument,
                        request.source,
                    )
            },
            Err(ServiceError::Pipeline(_)) => false,
        },
{
    let resolution = resolver.resolve(request.asset.as_str());
    let ghost answer = resolution;
    let instrument = match resolution {
        Resolution::Found { instrument } => instrument,
        _ => {
            proof {
                if resolves_to_one(resolver.catalog(), request.asset@) {
                    let found = choose|instrument: Instrument|
                        #[trigger] resolution_ok(
                            Resolution::Found { instrument },
                            resolver.catalog(),
                            request.asset@,
                        );
                    lemma_found_is_exclusive(answer, resolver.catalog(), request.asset@, found);
                }
            }
            return Err(ServiceError::Asset(request.asset.clone()));
        },
    };
    assert(resolution_ok(Resolution::Found { instrument }, resolver.catalog(), request.asset@));
    if !(request.timeframe == Timeframe::D1 || request.timeframe == Timeframe::W1) {
        return Err(ServiceError::Timeframe);
    }
    let auto = request.source == DataSourcePreference::Auto;
    let source = if auto && text_eq(instrument.venue.as_str(), "binance") {
        DataSource::BinanceSpot
    } else if auto && text_eq(instrument.venue.as_str(), "massive") {
        DataSource::MassiveRest
    } else {
        match calibration_file(&instrument) {
            Ok(file) => DataSource::SuppliedCorpus { file: file.to_owned() },
            Err(error) => {
                return Err(error);
            },
        }
    };
    Ok(DataPlan { instrument, source })
}

/// Live bars give an up-to-date answer; the supplied corpus a stale one.
pub fn data_response_status(live: bool) -> (r: RuntimeStatus)
    ensures
        r == (if live {
            RuntimeStatus::Okay
        } else {
            RuntimeStatus::StaleData
        }),
{
    if live {
        RuntimeStatus::Okay
    } else {
        RuntimeStatus::StaleData
    }
}

/// Why the answer says what it says.
pub fn data_response_reason(primary_provider: &str, live: bool) -> (r: String)
    ensures
        r@ == (if live {
            "deterministic structural snapshot from the latest closed "@ + primary_provider@
                + " D1 bars"@
        } else {
            "deterministic structural snapshot from the supplied closed-bar corpus"@
        }),
{
    if live {
        let mut out = concat("deterministic structural snapshot from the latest closed ", primary_provider);
        push_text(&mut out, " D1 bars");
        out
    } else {
        "deterministic structural snapshot from the supplied closed-bar corpus".to_owned()
    }
}

/// The text of a service error.
pub open spec fn service_error_text(e: ServiceError) -> Seq<char> {
    match e {
        ServiceError::Asset(asset) => "unsupported or ambiguous asset: "@ + asset@,
        ServiceError::Timeframe => "only D1 and W1 are available from the supplied corpus"@,
        ServiceError::CorpusMapping(symbol) => "no corpus mapping for instrument "@ + symbol@,
        ServiceError::Pipeline(text) => "service pipeline failed: "@ + text@,
    }
}

impl ServiceError {
    /// Describes the error.
    pub fn message(&self) -> (r: String)
        ensures
            r@ == service_error_text(*self),
    {
        match self {
            ServiceError::Asset(asset) => concat("unsupported or ambiguous asset: ", asset.as_str()),
            ServiceError::Timeframe => "only D1 and W1 are available from the supplied corpus".to_owned(),
            ServiceError::CorpusMapping(symbol) => concat(
                "no corpus mapping for instrument ",
                symbol.as_str(),
            ),
            ServiceError::Pipeline(text) => concat("service pipeline failed: ", text.as_str()),
        }
    }

    /// The HTTP status the data endpoint answers the error with: 400 for a
    /// request it cannot serve, 503 when the data pipeline is unavailable.
    pub fn http_status(&self) -> (r: u16)
        ensures
            r == (if self is Pipeline {
                503u16
            } else {
                400u16
            }),
    {
        match self {
            ServiceError::Pipeline(_) => 503,
            _ => 400,
        }
    }

    /// The error text the data endpoint publishes: a pipeline failure is
    /// not detailed to the caller.
    pub fn public_message(&self) -> (r: String)
        ensures
            r@ == (if self is Pipeline {
                "financial data pipeline unavailable"@
            } else {
                service_error_text(*self)
            }),
    {
        match self {
            ServiceError::Pipeline(_) => "financial data pipeline unavailable".to_owned(),
            _ => self.message(),
        }
    }
}

} // verus!
