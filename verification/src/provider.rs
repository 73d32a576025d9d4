//! Market-data provider rules: which instruments a provider serves, under
//! which symbol, and which gold futures contract stands for gold.

use vstd::prelude::*;
use crate::contracts::{AssetClass, Instrument};
use crate::text::{concat, lemma_lex_order, lex_lt, text_eq, text_lt};

verus! {

/// The least number of days to maturity of a preferred gold contract.
pub const GOLD_MIN_DAYS_TO_MATURITY: i64 = 20;

/// Why provider data could not be had.
#[derive(Debug, Clone, PartialEq, Eq)]
pub enum ProviderError {
    Unsupported(String),
    Request(String),
    MissingCredential(String),
    Payload(String),
    Observation(String),
}

/// How the Massive service is asked for an instrument's daily bars.
#[derive(Debug, Clone, Copy, PartialEq, Eq, Structural)]
pub enum MassiveRoute {
    Standard,
    Gold,
}

/// Massive serves only instruments of its own venue.
pub fn massive_venue_check(instrument: &Instrument) -> (r: Result<(), ProviderError>)
    ensures
        r is Ok <==> instrument.venue@ == "massive"@,
        r matches Err(e) ==> e matches ProviderError::Unsupported(id) && id@
            == instrument.instrument_id@,
{
    if text_eq(instrument.venue.as_str(), "massive") {
        Ok(())
    } else {
        Err(ProviderError::Unsupported(instrument.instrument_id.clone()))
    }
}

/// Stocks, indices and currencies go through the aggregates endpoint; gold
/// futures (`GC`) through the futures endpoint; nothing else is served.
pub open spec fn massive_route_of(instrument: Instrument) -> Option<MassiveRoute> {
    match instrument.asset_class {
        AssetClass::Stock | AssetClass::Index | AssetClass::Forex => Some(MassiveRoute::Standard),
        AssetClass::Futures => if instrument.symbol@ == "GC"@ {
            Some(MassiveRoute::Gold)
        } else {
            None
        },
        _ => None,
    }
}

/// Chooses the Massive endpoint for an instrument of the Massive venue.
pub fn massive_route(instrument: &Instrument) -> (r: Result<MassiveRoute, ProviderError>)
    ensures
        match massive_route_of(*instrument) {
            Some(route) => r == Ok::<MassiveRoute, ProviderError>(route),
            None => r matches Err(e) && e matches ProviderError::Unsupported(id) && id@
                == instrument.instrument_id@,
        },
{
    match instrument.asset_class {
        AssetClass::Stock | AssetClass::Index | AssetClass::Forex => Ok(MassiveRoute::Standard),
        AssetClass::Futures => {
            if text_eq(instrument.symbol.as_str(), "GC") {
                Ok(MassiveRoute::Gold)
            } else {
                Err(ProviderError::Unsupported(instrument.instrument_id.clone()))
            }
        },
        _ => Err(ProviderError::Unsupported(instrument.instrument_id.clone())),
    }
}

/// The Massive ticker of a stock (its symbol), an index (`I:` and its
/// symbol) or a currency pair (`C:` and its symbol).
pub open spec fn massive_symbol_of(instrument: Instrument) -> Option<Seq<char>> {
    match instrument.asset_class {
        AssetClass::Stock => Some(instrument.symbol@),
        AssetClass::Index => Some("I:"@ + instrument.symbol@),
        AssetClass::Forex => Some("C:"@ + instrument.symbol@),
        _ => None,
    }
}

/// The Massive ticker for the aggregates endpoint.
pub fn massive_standard_symbol(instrument: &Instrument) -> (r: Result<String, ProviderError>)
    ensures
        match massive_symbol_of(*instrument) {
            Some(symbol) => r matches Ok(s) && s@ == symbol,
            None => r matches Err(e) && e matches ProviderError::Unsupported(id) && id@
                == instrument.instrument_id@,
        },
{
    match instrument.asset_class {
        AssetClass::Stock => Ok(instrument.symbol.clone()),
        AssetClass::Index => Ok(concat("I:", instrument.symbol.as_str())),
        AssetClass::Forex => Ok(concat("C:", instrument.symbol.as_str())),
        _ => Err(ProviderError::Unsupported(instrument.instrument_id.clone())),
    }
}

/// The error for a Massive payload whose status is not `OK`.
pub open spec fn status_error(status: Option<Seq<char>>) -> Option<Seq<char>> {
    match status {
        Some(s) => if s == "OK"@ {
            None
        } else {
            Some("Massive response status is "@ + s)
        },
        None => Some("missing Massive status"@),
    }
}

/// Accepts a Massive payload only when its status is `OK`.
pub fn ensure_ok(status: Option<&str>) -> (r: Result<(), ProviderError>)
    ensures
        match status_error(
            match status {
                Some(s) => Some(s@),
                None => None,
            },
        ) {
            None => r is Ok,
            Some(message) => r matches Err(e) && e matches ProviderError::Payload(m) && m@
                == message,
        },
{
    match status {
        Some(s) => {
            if text_eq(s, "OK") {
                Ok(())
            } else {
                Err(ProviderError::Payload(concat("Massive response status is ", s)))
            }
        },
        None => Err(ProviderError::Payload("missing Massive status".to_owned())),
    }
}

/// A contract listing: its ticker and days to maturity, where present.
pub type ContractListing = (Option<String>, Option<i64>);

/// A listing with both fields, at least `threshold` days from maturity.
pub open spec fn eligible(contract: ContractListing, threshold: i64) -> bool {
    &&& contract.0 is Some
    &&& contract.1 is Some
    &&& contract.1.unwrap() >= threshold
}

/// Contracts are ordered by days to maturity, then by ticker.
pub open spec fn contract_before(a: ContractListing, b: ContractListing) -> bool {
    let (da, db) = (a.1.unwrap(), b.1.unwrap());
    da < db || (da == db && lex_lt(a.0.unwrap()@, b.0.unwrap()@))
}

/// `k` is an eligible listing that no eligible listing comes before.
pub open spec fn is_least_eligible(contracts: Seq<ContractListing>, threshold: i64, k: int) -> bool {
    &&& 0 <= k < contracts.len()
    &&& eligible(contracts[k], threshold)
    &&& forall|j: int|
        0 <= j < contracts.len() && eligible(#[trigger] contracts[j], threshold)
            ==> !contract_before(contracts[j], contracts[k])
}

pub open spec fn has_eligible(contracts: Seq<ContractListing>, threshold: i64) -> bool {
    exists|j: int| 0 <= j < contracts.len() && eligible(#[trigger] contracts[j], threshold)
}

proof fn lemma_contract_order(a: ContractListing, b: ContractListing, c: ContractListing)
    requires
        a.0 is Some && a.1 is Some,
        b.0 is Some && b.1 is Some,
        c.0 is Some && c.1 is Some,
    ensures
        !contract_before(a, a),
        contract_before(a, b) && contract_before(b, c) ==> contract_before(a, c),
{
    lemma_lex_order(a.0.unwrap()@, b.0.unwrap()@, c.0.unwrap()@);
}

/// The first eligible listing with the least (days, ticker) key.
fn least_eligible(contracts: &[ContractListing], threshold: i64) -> (r: Option<usize>)
    ensures
        match r {
            Some(k) => is_least_eligible(contracts@, threshold, k as int),
            None => !has_eligible(contracts@, threshold),
        },
{
    let n = contracts.len();
    let mut best: Option<usize> = None;
    let mut i: usize = 0;
    while i < n
        invariant
            n == contracts@.len(),
            i <= n,
            match best {
                Some(b) => {
                    &&& b < i
                    &&& eligible(contracts@[b as int], threshold)
                    &&& forall|j: int|
                        0 <= j < i && eligible(#[trigger] contracts@[j], threshold)
                            ==> !contract_before(contracts@[j], contracts@[b as int])
                },
                None => forall|j: int| 0 <= j < i ==> !eligible(#[trigger] contracts@[j], threshold),
            },
        decreases n - i,
    {
        let candidate = &contracts[i];
        let is_eligible = match (&candidate.0, candidate.1) {
            (Some(_), Some(days)) => days >= threshold,
            _ => false,
        };
        if is_eligible {
            match best {
                None => {
                    best = Some(i);
                    proof {
                        lemma_contract_order(contracts@[i as int], contracts@[i as int], contracts@[i as int]);
                    }
                },
                Some(b) => {
                    let current = &contracts[b];
                    let (days, best_days) = (candidate.1.unwrap(), current.1.unwrap());
                    let ticker = candidate.0.as_ref().unwrap();
                    let best_ticker = current.0.as_ref().unwrap();
                    let before = days < best_days || (days == best_days && text_lt(
                        ticker.as_str(),
                        best_ticker.as_str(),
                    ));
                    if before {
                        proof {
                            assert forall|j: int|
                                0 <= j < i + 1 && eligible(#[trigger] contracts@[j], threshold)
                                implies !contract_before(contracts@[j], contracts@[i as int]) by {
                                lemma_contract_order(contracts@[j], contracts@[i as int], contracts@[b as int]);
                            }
                        }
                        best = Some(i);
                    }
                },
            }
        }
        i = i + 1;
    }
    best
}

/// The gold contract that stands for gold: the nearest to maturity among
/// those at least twenty days away, else among those not yet expired;
/// contracts due on the same day go by ticker.
pub open spec fn gold_choice(contracts: Seq<ContractListing>, ticker: Seq<char>) -> bool {
    if has_eligible(contracts, GOLD_MIN_DAYS_TO_MATURITY) {
        exists|k: int|
            #[trigger] is_least_eligible(contracts, GOLD_MIN_DAYS_TO_MATURITY, k)
                && contracts[k].0.unwrap()@ == ticker
    } else {
        exists|k: int| #[trigger] is_least_eligible(contracts, 0, k) && contracts[k].0.unwrap()@ == ticker
    }
}

/// Selects the gold futures contract whose bars stand for gold.
pub fn select_gold_contract(contracts: &[ContractListing]) -> (r: Result<String, ProviderError>)
    ensures
        r is Ok <==> has_eligible(contracts@, 0),
        match r {
            Ok(ticker) => gold_choice(contracts@, ticker@),
            Err(e) => e matches ProviderError::Payload(m) && m@ == "no active GC futures contract"@,
        },
{
    let chosen = match least_eligible(contracts, GOLD_MIN_DAYS_TO_MATURITY) {
        Some(k) => Some(k),
        None => least_eligible(contracts, 0),
    };
    match chosen {
        Some(k) => {
            proof {
                if has_eligible(contracts@, GOLD_MIN_DAYS_TO_MATURITY) {
                    let j = choose|j: int|
                        0 <= j < contracts@.len() && eligible(
                            #[trigger] contracts@[j],
                            GOLD_MIN_DAYS_TO_MATURITY,
                        );
                    assert(eligible(contracts@[j], 0));
                }
                assert(eligible(contracts@[k as int], 0));
            }
            Ok(contracts[k].0.as_ref().unwrap().clone())
        },
        None => {
            proof {
                if has_eligible(contracts@, 0) {
                    let j = choose|j: int| 0 <= j < contracts@.len() && eligible(#[trigger] contracts@[j], 0);
                    assert(eligible(contracts@[j], 0));
                }
            }
            Err(ProviderError::Payload("no active GC futures contract".to_owned()))
        },
    }
}

/// Binance serves instruments of its own venue, at most 1000 bars at a time.
pub fn binance_request_check(instrument: &Instrument, limit: u16) -> (r: Result<(), ProviderError>)
    ensures
        r is Ok <==> (instrument.venue@ == "binance"@ && 1 <= limit <= 1000),
        r matches Err(e) ==> e matches ProviderError::Unsupported(id) && id@
            == instrument.instrument_id@,
{
    if !text_eq(instrument.venue.as_str(), "binance") || limit == 0 || limit > 1000 {
        Err(ProviderError::Unsupported(instrument.instrument_id.clone()))
    } else {
        Ok(())
    }
}

/// A payload error with the given text.
pub open spec fn payload_error(e: ProviderError, text: Seq<char>) -> bool {
    e matches ProviderError::Payload(m) && m@ == text
}

/// The open and close times, in nanoseconds, of a Binance kline given in
/// milliseconds; nothing for a kline that has not closed by `now_ms`.
pub fn kline_times(open_ms: i64, close_ms: i64, now_ms: i64) -> (r: Result<
    Option<(i64, i64)>,
    ProviderError,
>)
    ensures
        close_ms >= now_ms ==> r == Ok::<Option<(i64, i64)>, ProviderError>(None),
        close_ms < now_ms ==> match r {
            Ok(times) => {
                &&& open_ms * 1_000_000 >= i64::MIN && open_ms * 1_000_000 <= i64::MAX
                &&& close_ms * 1_000_000 >= i64::MIN && close_ms * 1_000_000 <= i64::MAX
                &&& times == Some(((open_ms * 1_000_000) as i64, (close_ms * 1_000_000) as i64))
            },
            Err(e) => if open_ms * 1_000_000 < i64::MIN || open_ms * 1_000_000 > i64::MAX {
                payload_error(e, "open timestamp overflow"@)
            } else {
                payload_error(e, "close timestamp overflow"@)
                    && (close_ms * 1_000_000 < i64::MIN || close_ms * 1_000_000 > i64::MAX)
            },
        },
{
    if close_ms >= now_ms {
        return Ok(None);
    }
    let open_ns = match open_ms.checked_mul(1_000_000) {
        Some(value) => value,
        None => return Err(ProviderError::Payload("open timestamp overflow".to_owned())),
    };
    let close_ns = match close_ms.checked_mul(1_000_000) {
        Some(value) => value,
        None => return Err(ProviderError::Payload("close timestamp overflow".to_owned())),
    };
    Ok(Some((open_ns, close_ns)))
}

/// The open and close times, in nanoseconds, of a Massive daily aggregate
/// that opens at `open_ms` milliseconds: it closes one nanosecond before the
/// next day.
pub fn massive_bar_times(open_ms: i64) -> (r: Result<(i64, i64), ProviderError>)
    ensures
        match r {
            Ok((open_ns, close_ns)) => {
                &&& open_ns == open_ms * 1_000_000
                &&& close_ns == open_ms * 1_000_000 + 86_399_999_999_999
            },
            Err(e) => if open_ms * 1_000_000 < i64::MIN || open_ms * 1_000_000 > i64::MAX {
                payload_error(e, "open timestamp overflow"@)
            } else {
                payload_error(e, "close timestamp overflow"@) && open_ms * 1_000_000
                    + 86_399_999_999_999 > i64::MAX
            },
        },
{
    let open_ns = match open_ms.checked_mul(1_000_000) {
        Some(value) => value,
        None => return Err(ProviderError::Payload("open timestamp overflow".to_owned())),
    };
    match open_ns.checked_add(86_399_999_999_999) {
        Some(close_ns) => Ok((open_ns, close_ns)),
        None => Err(ProviderError::Payload("close timestamp overflow".to_owned())),
    }
}

/// A provider's bars must open at strictly increasing times.
pub fn check_increasing(previous_open_ns: Option<i64>, open_ns: i64) -> (r: Result<(), ProviderError>)
    ensures
        r is Ok <==> match previous_open_ns {
            Some(previous) => previous < open_ns,
            None => true,
        },
        r matches Err(e) ==> payload_error(e, "timestamps are not strictly increasing"@),
{
    match previous_open_ns {
        Some(previous) => {
            if previous >= open_ns {
                Err(ProviderError::Payload("timestamps are not strictly increasing".to_owned()))
            } else {
                Ok(())
            }
        },
        None => Ok(()),
    }
}

/// A kline's trade count cannot be negative.
pub fn trade_count(value: i64) -> (r: Result<u64, ProviderError>)
    ensures
        value >= 0 ==> r == Ok::<u64, ProviderError>(value as u64),
        value < 0 ==> (r matches Err(e) && payload_error(e, "negative trade count"@)),
{
    if value < 0 {
        Err(ProviderError::Payload("negative trade count".to_owned()))
    } else {
        Ok(value as u64)
    }
}

} // verus!
