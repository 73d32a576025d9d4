//! Asset resolution without guessing: a query names an instrument only when
//! exactly one catalog instrument matches it after normalization.

use vstd::prelude::*;
use crate::contracts::{AssetClass, Instrument, SessionCalendar};
use crate::text::{
    lemma_lex_order, lex_lt, normalize, normalized, text_eq, text_lt,
};

verus! {

#[derive(Debug)]
pub struct CatalogEntry {
    pub instrument: Instrument,
    pub aliases: Vec<String>,
}

#[derive(Debug, PartialEq)]
pub enum Resolution {
    Found { instrument: Instrument },
    AmbiguousAsset { candidates: Vec<Instrument> },
    UnsupportedAsset { query: String },
}

#[derive(Debug)]
pub struct AssetResolver {
    entries: Vec<CatalogEntry>,
}

/// An entry matches a normalized query through its symbol or one of its aliases.
#[verifier::opaque]
pub open spec fn entry_matches(entry: CatalogEntry, query: Seq<char>) -> bool {
    ||| normalized(entry.instrument.symbol@) == query
    ||| exists|a: int| 0 <= a < entry.aliases@.len() && #[trigger] normalized(entry.aliases@[a]@) == query
}

pub open spec fn entry_id(entry: CatalogEntry) -> Seq<char> {
    entry.instrument.instrument_id@
}

/// `k` is a matching entry among the first `n`, and no earlier matching
/// entry carries its identifier.
#[verifier::opaque]
pub open spec fn is_first_match(entries: Seq<CatalogEntry>, query: Seq<char>, k: int, n: int) -> bool {
    &&& 0 <= k < n
    &&& k < entries.len()
    &&& entry_matches(entries[k], query)
    &&& forall|j: int|
        0 <= j < k && entry_matches(entries[j], query) ==> #[trigger] entry_id(entries[j])
            != entry_id(entries[k])
}

proof fn lemma_first_match_grows(entries: Seq<CatalogEntry>, query: Seq<char>, k: int, n: int, m: int)
    requires
        is_first_match(entries, query, k, n),
        n <= m,
    ensures
        is_first_match(entries, query, k, m),
{
    reveal(is_first_match);
}

pub open spec fn ids_strictly_sorted(candidates: Seq<Instrument>) -> bool {
    forall|i: int, j: int|
        0 <= i < j < candidates.len() ==> lex_lt(
            #[trigger] candidates[i].instrument_id@,
            #[trigger] candidates[j].instrument_id@,
        )
}

/// Candidate `i` is the instrument of a first matching entry among the
/// first `n` entries.
pub open spec fn has_origin(
    candidates: Seq<Instrument>,
    entries: Seq<CatalogEntry>,
    query: Seq<char>,
    i: int,
    n: int,
) -> bool {
    exists|k: int| #[trigger] is_first_match(entries, query, k, n) && entries[k].instrument == candidates[i]
}

/// Some candidate carries the identifier of entry `k`.
pub open spec fn is_listed(candidates: Seq<Instrument>, entries: Seq<CatalogEntry>, k: int) -> bool {
    exists|i: int|
        0 <= i < candidates.len() && #[trigger] candidates[i].instrument_id@ == entry_id(entries[k])
}

/// `candidates` lists, in increasing identifier order, exactly one instrument
/// per distinct identifier among the matching entries of the first `n`
/// entries: the instrument of the first matching entry with that identifier.
pub open spec fn is_candidate_list_upto(
    candidates: Seq<Instrument>,
    entries: Seq<CatalogEntry>,
    query: Seq<char>,
    n: int,
) -> bool {
    &&& ids_strictly_sorted(candidates)
    &&& forall|i: int| 0 <= i < candidates.len() ==> #[trigger] has_origin(candidates, entries, query, i, n)
    &&& forall|k: int|
        0 <= k < n && k < entries.len() && entry_matches(entries[k], query) ==> #[trigger] is_listed(
            candidates,
            entries,
            k,
        )
}

pub open spec fn is_candidate_list(
    candidates: Seq<Instrument>,
    entries: Seq<CatalogEntry>,
    query: Seq<char>,
) -> bool {
    is_candidate_list_upto(candidates, entries, query, entries.len() as int)
}

/// What `resolve` answers for `query` over `entries`.
pub open spec fn resolution_ok(r: Resolution, entries: Seq<CatalogEntry>, query: Seq<char>) -> bool {
    let q = normalized(query);
    match r {
        Resolution::UnsupportedAsset { query: echoed } => {
            &&& echoed@ == query
            &&& forall|k: int| 0 <= k < entries.len() ==> !entry_matches(#[trigger] entries[k], q)
        },
        Resolution::Found { instrument } => is_candidate_list(seq![instrument], entries, q),
        Resolution::AmbiguousAsset { candidates } => {
            &&& candidates@.len() >= 2
            &&& is_candidate_list(candidates@, entries, q)
        },
    }
}

fn entry_matches_query(entry: &CatalogEntry, query: &String) -> (r: bool)
    ensures
        r == entry_matches(*entry, query@),
{
    let symbol = normalize(entry.instrument.symbol.as_str());
    if text_eq(symbol.as_str(), query.as_str()) {
        assert(entry_matches(*entry, query@)) by {
            reveal(entry_matches);
        }
        return true;
    }
    let mut a: usize = 0;
    while a < entry.aliases.len()
        invariant
            a <= entry.aliases@.len(),
            normalized(entry.instrument.symbol@) != query@,
            forall|b: int| 0 <= b < a ==> #[trigger] normalized(entry.aliases@[b]@) != query@,
        decreases entry.aliases@.len() - a,
    {
        let alias = normalize(entry.aliases[a].as_str());
        if text_eq(alias.as_str(), query.as_str()) {
            assert(entry_matches(*entry, query@)) by {
                reveal(entry_matches);
                assert(normalized(entry.aliases@[a as int]@) == query@);
            }
            return true;
        }
        a = a + 1;
    }
    assert(!entry_matches(*entry, query@)) by {
        reveal(entry_matches);
    }
    false
}

/// Inserts `instrument` into an identifier-sorted list unless an instrument
/// with its identifier is already there; returns where it was inserted.
fn insert_candidate(candidates: &mut Vec<Instrument>, instrument: &Instrument) -> (pos: Option<usize>)
    requires
        ids_strictly_sorted(old(candidates)@),
    ensures
        ids_strictly_sorted(final(candidates)@),
        match pos {
            None => {
                &&& final(candidates)@ == old(candidates)@
                &&& exists|i: int|
                    0 <= i < old(candidates)@.len() && #[trigger] old(candidates)@[i].instrument_id@
                        == instrument.instrument_id@
            },
            Some(p) => {
                &&& p <= old(candidates)@.len()
                &&& final(candidates)@ == old(candidates)@.insert(p as int, *instrument)
                &&& forall|i: int|
                    0 <= i < old(candidates)@.len() ==> #[trigger] old(candidates)@[i].instrument_id@
                        != instrument.instrument_id@
            },
        },
{
    let n = candidates.len();
    let mut i: usize = 0;
    while i < n
        invariant
            n == candidates@.len(),
            candidates@ == old(candidates)@,
            ids_strictly_sorted(candidates@),
            i <= n,
            forall|j: int|
                0 <= j < i ==> lex_lt(
                    #[trigger] candidates@[j].instrument_id@,
                    instrument.instrument_id@,
                ),
        decreases n - i,
    {
        let existing = candidates[i].instrument_id.as_str();
        if text_eq(existing, instrument.instrument_id.as_str()) {
            return None;
        }
        if text_lt(instrument.instrument_id.as_str(), existing) {
            let ghost old_seq = candidates@;
            proof {
                assert forall|j: int| 0 <= j < n implies #[trigger] old_seq[j].instrument_id@
                    != instrument.instrument_id@ by {
                    lemma_lex_order(
                        old_seq[j].instrument_id@,
                        instrument.instrument_id@,
                        old_seq[i as int].instrument_id@,
                    );
                    if j > i {
                        lemma_lex_order(
                            instrument.instrument_id@,
                            old_seq[i as int].instrument_id@,
                            old_seq[j].instrument_id@,
                        );
                        lemma_lex_order(
                            old_seq[j].instrument_id@,
                            instrument.instrument_id@,
                            old_seq[j].instrument_id@,
                        );
                    }
                }
            }
            candidates.insert(i, instrument.clone());
            proof {
                old_seq.insert_ensures(i as int, *instrument);
                let s = candidates@;
                assert forall|a: int, b: int| 0 <= a < b < s.len() implies lex_lt(
                    #[trigger] s[a].instrument_id@,
                    #[trigger] s[b].instrument_id@,
                ) by {
                    if b < i {
                    } else if b == i {
                    } else if a < i {
                        lemma_lex_order(
                            s[a].instrument_id@,
                            instrument.instrument_id@,
                            s[b].instrument_id@,
                        );
                        if b > i + 1 {
                            lemma_lex_order(
                                instrument.instrument_id@,
                                old_seq[i as int].instrument_id@,
                                old_seq[b - 1].instrument_id@,
                            );
                        }
                    } else if a == i {
                        if b > i + 1 {
                            lemma_lex_order(
                                instrument.instrument_id@,
                                old_seq[i as int].instrument_id@,
                                old_seq[b - 1].instrument_id@,
                            );
                        }
                    } else {
                        assert(s[a] == old_seq[a - 1]);
                        assert(s[b] == old_seq[b - 1]);
                    }
                }
            }
            return Some(i);
        }
        proof {
            lemma_lex_order(
                candidates@[i as int].instrument_id@,
                instrument.instrument_id@,
                instrument.instrument_id@,
            );
        }
        i = i + 1;
    }
    let ghost old_seq = candidates@;
    proof {
        assert forall|j: int| 0 <= j < n implies #[trigger] old_seq[j].instrument_id@
            != instrument.instrument_id@ by {
            lemma_lex_order(
                old_seq[j].instrument_id@,
                instrument.instrument_id@,
                old_seq[j].instrument_id@,
            );
        }
    }
    candidates.insert(n, instrument.clone());
    proof {
        old_seq.insert_ensures(n as int, *instrument);
        let s = candidates@;
        assert forall|a: int, b: int| 0 <= a < b < s.len() implies lex_lt(
            #[trigger] s[a].instrument_id@,
            #[trigger] s[b].instrument_id@,
        ) by {
            if b < n {
                assert(s[a] == old_seq[a]);
                assert(s[b] == old_seq[b]);
            }
        }
    }
    Some(n)
}

/// Loop state of `resolve` after scanning the first `n` entries: `origin[i]`
/// is the entry that contributed `candidates[i]`.
#[verifier::opaque]
spec fn scan_state(
    candidates: Seq<Instrument>,
    origin: Seq<int>,
    entries: Seq<CatalogEntry>,
    query: Seq<char>,
    n: int,
) -> bool {
    &&& 0 <= n <= entries.len()
    &&& origin.len() == candidates.len()
    &&& ids_strictly_sorted(candidates)
    &&& forall|i: int|
        0 <= i < candidates.len() ==> is_first_match(entries, query, #[trigger] origin[i], n)
            && entries[origin[i]].instrument == candidates[i]
    &&& forall|k: int|
        0 <= k < n && entry_matches(entries[k], query) ==> #[trigger] is_listed(candidates, entries, k)
}

proof fn lemma_scan_start(entries: Seq<CatalogEntry>, query: Seq<char>)
    ensures
        scan_state(Seq::empty(), Seq::empty(), entries, query, 0),
{
    reveal(scan_state);
}

proof fn lemma_scan_keep(
    candidates: Seq<Instrument>,
    origin: Seq<int>,
    entries: Seq<CatalogEntry>,
    query: Seq<char>,
    n: int,
)
    requires
        scan_state(candidates, origin, entries, query, n),
        n < entries.len(),
        !entry_matches(entries[n], query) || is_listed(candidates, entries, n),
    ensures
        scan_state(candidates, origin, entries, query, n + 1),
{
    reveal(scan_state);
    assert forall|i: int| 0 <= i < candidates.len() implies is_first_match(
        entries,
        query,
        #[trigger] origin[i],
        n + 1,
    ) && entries[origin[i]].instrument == candidates[i] by {
        lemma_first_match_grows(entries, query, origin[i], n, n + 1);
    }
    assert forall|k: int| 0 <= k < n + 1 && entry_matches(entries[k], query) implies #[trigger] is_listed(
        candidates,
        entries,
        k,
    ) by {
        if k < n {
        }
    }
}

proof fn lemma_scan_insert(
    before: Seq<Instrument>,
    origin: Seq<int>,
    entries: Seq<CatalogEntry>,
    query: Seq<char>,
    n: int,
    p: int,
    after: Seq<Instrument>,
)
    requires
        scan_state(before, origin, entries, query, n),
        n < entries.len(),
        entry_matches(entries[n], query),
        0 <= p <= before.len(),
        after == before.insert(p, entries[n].instrument),
        ids_strictly_sorted(after),
        forall|i: int|
            0 <= i < before.len() ==> #[trigger] before[i].instrument_id@ != entry_id(entries[n]),
    ensures
        scan_state(after, origin.insert(p, n), entries, query, n + 1),
{
    reveal(scan_state);
    let new_origin = origin.insert(p, n);
    before.insert_ensures(p, entries[n].instrument);
    origin.insert_ensures(p, n);
    assert forall|j: int| 0 <= j < n && entry_matches(entries[j], query) implies #[trigger] entry_id(
        entries[j],
    ) != entry_id(entries[n]) by {
        assert(is_listed(before, entries, j));
        let i = choose|i: int|
            0 <= i < before.len() && #[trigger] before[i].instrument_id@ == entry_id(entries[j]);
    }
    assert(is_first_match(entries, query, n, n + 1)) by {
        reveal(is_first_match);
    }
    assert forall|i: int| 0 <= i < after.len() implies is_first_match(
        entries,
        query,
        #[trigger] new_origin[i],
        n + 1,
    ) && entries[new_origin[i]].instrument == after[i] by {
        if i < p {
            assert(new_origin[i] == origin[i]);
            lemma_first_match_grows(entries, query, origin[i], n, n + 1);
        } else if i > p {
            assert(new_origin[i] == origin[i - 1]);
            assert(after[i] == before[i - 1]);
            lemma_first_match_grows(entries, query, origin[i - 1], n, n + 1);
        }
    }
    assert forall|k: int| 0 <= k < n + 1 && entry_matches(entries[k], query) implies #[trigger] is_listed(
        after,
        entries,
        k,
    ) by {
        if k < n {
            assert(is_listed(before, entries, k));
            let i = choose|i: int|
                0 <= i < before.len() && #[trigger] before[i].instrument_id@ == entry_id(entries[k]);
            if i < p {
                assert(after[i] == before[i]);
            } else {
                assert(after[i + 1] == before[i]);
            }
        } else {
            assert(after[p] == entries[n].instrument);
            assert(after[p].instrument_id@ == entry_id(entries[k]));
        }
    }
}

proof fn lemma_scan_done(
    candidates: Seq<Instrument>,
    origin: Seq<int>,
    entries: Seq<CatalogEntry>,
    query: Seq<char>,
)
    requires
        scan_state(candidates, origin, entries, query, entries.len() as int),
    ensures
        is_candidate_list(candidates, entries, query),
        candidates.len() == 0 ==> forall|k: int|
            0 <= k < entries.len() ==> !entry_matches(#[trigger] entries[k], query),
{
    reveal(scan_state);
    let n = entries.len() as int;
    assert forall|i: int| 0 <= i < candidates.len() implies #[trigger] has_origin(
        candidates,
        entries,
        query,
        i,
        n,
    ) by {
        assert(is_first_match(entries, query, origin[i], n));
        assert(entries[origin[i]].instrument == candidates[i]);
    }
    if candidates.len() == 0 {
        assert forall|k: int| 0 <= k < entries.len() implies !entry_matches(
            #[trigger] entries[k],
            query,
        ) by {
            if entry_matches(entries[k], query) {
                assert(is_listed(candidates, entries, k));
            }
        }
    }
}

impl AssetResolver {
    /// The catalog that the resolver searches, in order.
    pub closed spec fn catalog(&self) -> Seq<CatalogEntry> {
        self.entries@
    }

    pub fn new(entries: Vec<CatalogEntry>) -> (r: Self)
        ensures
            r.catalog() == entries@,
    {
        Self { entries }
    }

    /// Resolves a symbol or alias. Only a query that matches exactly one
    /// catalog identifier is `Found`; several identifiers are reported as
    /// ambiguous, in identifier order, never guessed between.
    pub fn resolve(&self, query: &str) -> (r: Resolution)
        ensures
            resolution_ok(r, self.catalog(), query@),
    {
        let normalized_query = normalize(query);
        let ghost q = normalized(query@);
        let ghost entries = self.entries@;
        let mut candidates: Vec<Instrument> = Vec::new();
        let ghost mut origin: Seq<int> = Seq::empty();
        proof {
            lemma_scan_start(entries, q);
        }
        let mut n: usize = 0;
        while n < self.entries.len()
            invariant
                entries == self.entries@,
                normalized_query@ == q,
                n <= entries.len(),
                scan_state(candidates@, origin, entries, q, n as int),
            decreases entries.len() - n,
        {
            let entry = &self.entries[n];
            if entry_matches_query(entry, &normalized_query) {
                let ghost before = candidates@;
                proof {
                    reveal(scan_state);
                }
                let pos = insert_candidate(&mut candidates, &entry.instrument);
                match pos {
                    None => {
                        proof {
                            let i = choose|i: int|
                                0 <= i < before.len() && #[trigger] before[i].instrument_id@
                                    == entries[n as int].instrument.instrument_id@;
                            assert(is_listed(before, entries, n as int));
                            lemma_scan_keep(before, origin, entries, q, n as int);
                        }
                    },
                    Some(p) => {
                        proof {
                            lemma_scan_insert(
                                before,
                                origin,
                                entries,
                                q,
                                n as int,
                                p as int,
                                candidates@,
                            );
                            origin = origin.insert(p as int, n as int);
                        }
                    },
                }
            } else {
                proof {
                    lemma_scan_keep(candidates@, origin, entries, q, n as int);
                }
            }
            n = n + 1;
        }
        proof {
            lemma_scan_done(candidates@, origin, entries, q);
        }
        let count = candidates.len();
        if count == 0 {
            Resolution::UnsupportedAsset { query: query.to_owned() }
        } else if count == 1 {
            let ghost all = candidates@;
            let instrument = candidates.remove(0);
            proof {
                assert(seq![instrument] =~= all);
            }
            Resolution::Found { instrument }
        } else {
            Resolution::AmbiguousAsset { candidates }
        }
    }
}

/// Describes one catalog entry: its instrument fields and its aliases.
pub open spec fn entry_is(
    entry: CatalogEntry,
    id: Seq<char>,
    asset_class: AssetClass,
    symbol: Seq<char>,
    base: Option<Seq<char>>,
    quote: Option<Seq<char>>,
    venue: Seq<char>,
    calendar: SessionCalendar,
    aliases: Seq<Seq<char>>,
) -> bool {
    let inst = entry.instrument;
    &&& inst.instrument_id@ == id
    &&& inst.asset_class == asset_class
    &&& inst.symbol@ == symbol
    &&& match inst.base {
        Some(b) => base == Some(b@),
        None => base.is_none(),
    }
    &&& match inst.quote {
        Some(b) => quote == Some(b@),
        None => quote.is_none(),
    }
    &&& inst.venue@ == venue
    &&& inst.timezone@ == "UTC"@
    &&& inst.session_calendar == calendar
    &&& inst.price_precision.is_none()
    &&& inst.quantity_precision.is_none()
    &&& inst.live_data_capable
    &&& inst.historical_data_capable
    &&& entry.aliases@.map_values(|a: String| a@) == aliases
}

fn optional_text(value: Option<&str>) -> (r: Option<String>)
    ensures
        match value {
            Some(v) => r.is_some() && r.unwrap()@ == v@,
            None => r.is_none(),
        },
{
    match value {
        Some(v) => Some(v.to_owned()),
        None => None,
    }
}

/// A catalog instrument in UTC with no fixed precisions, capable of live and
/// historical data.
fn instrument(
    id: &str,
    asset_class: AssetClass,
    symbol: &str,
    base: Option<&str>,
    quote: Option<&str>,
    venue: &str,
    calendar: SessionCalendar,
) -> (r: Instrument)
    ensures
        r.instrument_id@ == id@,
        r.asset_class == asset_class,
        r.symbol@ == symbol@,
        match base {
            Some(b) => r.base.is_some() && r.base.unwrap()@ == b@,
            None => r.base.is_none(),
        },
        match quote {
            Some(b) => r.quote.is_some() && r.quote.unwrap()@ == b@,
            None => r.quote.is_none(),
        },
        r.venue@ == venue@,
        r.timezone@ == "UTC"@,
        r.session_calendar == calendar,
        r.price_precision.is_none(),
        r.quantity_precision.is_none(),
        r.live_data_capable,
        r.historical_data_capable,
{
    Instrument {
        instrument_id: id.to_owned(),
        asset_class,
        symbol: symbol.to_owned(),
        base: optional_text(base),
        quote: optional_text(quote),
        venue: venue.to_owned(),
        timezone: "UTC".to_owned(),
        session_calendar: calendar,
        price_precision: None,
        quantity_precision: None,
        live_data_capable: true,
        historical_data_capable: true,
    }
}

/// The built-in catalog: eight instruments with their aliases, in this order.
pub open spec fn is_default_catalog(es: Seq<CatalogEntry>) -> bool {
    &&& es.len() == 8
    &&& entry_is(es[0], "crypto:binance:BTCUSDT"@, AssetClass::Crypto, "BTCUSDT"@, Some("BTC"@), Some("USDT"@), "binance"@, SessionCalendar::ContinuousUtc, seq!["BTC"@, "BTCUSDT"@])
    &&& entry_is(es[1], "crypto:binance:XRPUSDT"@, AssetClass::Crypto, "XRPUSDT"@, Some("XRP"@), Some("USDT"@), "binance"@, SessionCalendar::ContinuousUtc, seq!["XRP"@, "XRPUSDT"@])
    &&& entry_is(es[2], "stock:massive:AAPL"@, AssetClass::Stock, "AAPL"@, Some("AAPL"@), Some("USD"@), "massive"@, SessionCalendar::ExchangeSession, seq!["AAPL"@])
    &&& entry_is(es[3], "stock:massive:MSFT"@, AssetClass::Stock, "MSFT"@, Some("MSFT"@), Some("USD"@), "massive"@, SessionCalendar::ExchangeSession, seq!["MSFT"@])
    &&& entry_is(es[4], "index:massive:SPX"@, AssetClass::Index, "SPX"@, None, Some("USD"@), "massive"@, SessionCalendar::ExchangeSession, seq!["SPX"@, "SP500"@, "S&P500"@])
    &&& entry_is(es[5], "index:massive:NDX"@, AssetClass::Index, "NDX"@, None, Some("USD"@), "massive"@, SessionCalendar::ExchangeSession, seq!["NDX"@, "NASDAQ"@])
    &&& entry_is(es[6], "forex:massive:EURUSD"@, AssetClass::Forex, "EURUSD"@, Some("EUR"@), Some("USD"@), "massive"@, SessionCalendar::ExchangeSession, seq!["EURUSD"@, "EUR/USD"@])
    &&& entry_is(es[7], "futures:massive:GC"@, AssetClass::Futures, "GC"@, Some("GOLD"@), Some("USD"@), "massive"@, SessionCalendar::ExchangeSession, seq!["GC"@, "GOLD"@])
}

/// The built-in catalog of supported instruments.
pub fn default_catalog() -> (r: Vec<CatalogEntry>)
    ensures
        is_default_catalog(r@),
{
    let mut entries: Vec<CatalogEntry> = Vec::new();
    let inst = instrument(
        "crypto:binance:BTCUSDT",
        AssetClass::Crypto,
        "BTCUSDT",
        Some("BTC"),
        Some("USDT"),
        "binance",
        SessionCalendar::ContinuousUtc,
    );
    let aliases = vec!["BTC".to_owned(), "BTCUSDT".to_owned()];
    proof {
        assert(aliases@.map_values(|a: String| a@) =~= seq!["BTC"@, "BTCUSDT"@]);
    }
    entries.push(CatalogEntry { instrument: inst, aliases });
    let inst = instrument(
        "crypto:binance:XRPUSDT",
        AssetClass::Crypto,
        "XRPUSDT",
        Some("XRP"),
        Some("USDT"),
        "binance",
        SessionCalendar::ContinuousUtc,
    );
    let aliases = vec!["XRP".to_owned(), "XRPUSDT".to_owned()];
    proof {
        assert(aliases@.map_values(|a: String| a@) =~= seq!["XRP"@, "XRPUSDT"@]);
    }
    entries.push(CatalogEntry { instrument: inst, aliases });
    let inst = instrument(
        "stock:massive:AAPL",
        AssetClass::Stock,
        "AAPL",
        Some("AAPL"),
        Some("USD"),
        "massive",
        SessionCalendar::ExchangeSession,
    );
    let aliases = vec!["AAPL".to_owned()];
    proof {
        assert(aliases@.map_values(|a: String| a@) =~= seq!["AAPL"@]);
    }
    entries.push(CatalogEntry { instrument: inst, aliases });
    let inst = instrument(
        "stock:massive:MSFT",
        AssetClass::Stock,
        "MSFT",
        Some("MSFT"),
        Some("USD"),
        "massive",
        SessionCalendar::ExchangeSession,
    );
    let aliases = vec!["MSFT".to_owned()];
    proof {
        assert(aliases@.map_values(|a: String| a@) =~= seq!["MSFT"@]);
    }
    entries.push(CatalogEntry { instrument: inst, aliases });
    let inst = instrument(
        "index:massive:SPX",
        AssetClass::Index,
        "SPX",
        None,
        Some("USD"),
        "massive",
        SessionCalendar::ExchangeSession,
    );
    let aliases = vec!["SPX".to_owned(), "SP500".to_owned(), "S&P500".to_owned()];
    proof {
        assert(aliases@.map_values(|a: String| a@) =~= seq!["SPX"@, "SP500"@, "S&P500"@]);
    }
    entries.push(CatalogEntry { instrument: inst, aliases });
    let inst = instrument(
        "index:massive:NDX",
        AssetClass::Index,
        "NDX",
        None,
        Some("USD"),
        "massive",
        SessionCalendar::ExchangeSession,
    );
    let aliases = vec!["NDX".to_owned(), "NASDAQ".to_owned()];
    proof {
        assert(aliases@.map_values(|a: String| a@) =~= seq!["NDX"@, "NASDAQ"@]);
    }
    entries.push(CatalogEntry { instrument: inst, aliases });
    let inst = instrument(
        "forex:massive:EURUSD",
        AssetClass::Forex,
        "EURUSD",
        Some("EUR"),
        Some("USD"),
        "massive",
        SessionCalendar::ExchangeSession,
    );
    let aliases = vec!["EURUSD".to_owned(), "EUR/USD".to_owned()];
    proof {
        assert(aliases@.map_values(|a: String| a@) =~= seq!["EURUSD"@, "EUR/USD"@]);
    }
    entries.push(CatalogEntry { instrument: inst, aliases });
    let inst = instrument(
        "futures:massive:GC",
        AssetClass::Futures,
        "GC",
        Some("GOLD"),
        Some("USD"),
        "massive",
        SessionCalendar::ExchangeSession,
    );
    let aliases = vec!["GC".to_owned(), "GOLD".to_owned()];
    proof {
        assert(aliases@.map_values(|a: String| a@) =~= seq!["GC"@, "GOLD"@]);
    }
    entries.push(CatalogEntry { instrument: inst, aliases });
    entries
}

impl Default for AssetResolver {
    fn default() -> (r: Self)
        ensures
            is_default_catalog(r.catalog()),
    {
        Self::new(default_catalog())
    }
}

/// Whether a query has a `Found` answer over the entries.
pub open spec fn resolves_to_one(entries: Seq<CatalogEntry>, query: Seq<char>) -> bool {
    exists|instrument: Instrument| #[trigger] resolution_ok(
        Resolution::Found { instrument },
        entries,
        query,
    )
}

/// A query that has a `Found` answer has no answer of another kind: every
/// matching entry then carries the one identifier, which leaves no room for
/// a second candidate or for an unsupported answer.
pub proof fn lemma_found_is_exclusive(
    r: Resolution,
    entries: Seq<CatalogEntry>,
    query: Seq<char>,
    instrument: Instrument,
)
    requires
        resolution_ok(r, entries, query),
        resolution_ok(Resolution::Found { instrument }, entries, query),
    ensures
        r is Found,
{
    let q = normalized(query);
    let n = entries.len() as int;
    let single = seq![instrument];
    assert(has_origin(single, entries, q, 0, n));
    let k = choose|k: int| #[trigger] is_first_match(entries, q, k, n) && entries[k].instrument == single[0];
    reveal(is_first_match);
    match r {
        Resolution::UnsupportedAsset { .. } => {
            assert(!entry_matches(entries[k], q));
        },
        Resolution::AmbiguousAsset { candidates } => {
            let c = candidates@;
            assert(has_origin(c, entries, q, 0, n));
            assert(has_origin(c, entries, q, 1, n));
            let k0 = choose|k: int| #[trigger] is_first_match(entries, q, k, n) && entries[k].instrument == c[0];
            let k1 = choose|k: int| #[trigger] is_first_match(entries, q, k, n) && entries[k].instrument == c[1];
            assert(is_listed(single, entries, k0));
            assert(is_listed(single, entries, k1));
            assert(lex_lt(c[0].instrument_id@, c[1].instrument_id@));
            lemma_lex_order(c[0].instrument_id@, c[1].instrument_id@, c[1].instrument_id@);
        },
        Resolution::Found { .. } => {},
    }
}

/// Resolution never guesses: when two matching catalog entries carry
/// different identifiers, every candidate list for the query holds at least
/// two instruments, so the answer is `AmbiguousAsset`.
pub proof fn lemma_resolution_never_guesses(
    candidates: Seq<Instrument>,
    entries: Seq<CatalogEntry>,
    query: Seq<char>,
    k1: int,
    k2: int,
)
    requires
        is_candidate_list(candidates, entries, query),
        0 <= k1 < entries.len(),
        0 <= k2 < entries.len(),
        entry_matches(entries[k1], query),
        entry_matches(entries[k2], query),
        entry_id(entries[k1]) != entry_id(entries[k2]),
    ensures
        candidates.len() >= 2,
{
    assert(is_listed(candidates, entries, k1));
    assert(is_listed(candidates, entries, k2));
    let i1 = choose|i: int|
        0 <= i < candidates.len() && #[trigger] candidates[i].instrument_id@ == entry_id(entries[k1]);
    let i2 = choose|i: int|
        0 <= i < candidates.len() && #[trigger] candidates[i].instrument_id@ == entry_id(entries[k2]);
    assert(i1 != i2);
}

/// Identifier sequences in strictly increasing order that hold the same
/// identifiers are equal.
proof fn lemma_sorted_ids_unique(a: Seq<Seq<char>>, b: Seq<Seq<char>>)
    requires
        forall|i: int, j: int| 0 <= i < j < a.len() ==> lex_lt(#[trigger] a[i], #[trigger] a[j]),
        forall|i: int, j: int| 0 <= i < j < b.len() ==> lex_lt(#[trigger] b[i], #[trigger] b[j]),
        forall|x: Seq<char>| a.contains(x) <==> b.contains(x),
    ensures
        a == b,
    decreases a.len(),
{
    if a.len() == 0 {
        if b.len() > 0 {
            assert(b.contains(b[0]));
        }
        assert(a =~= b);
    } else {
        assert(a.contains(a[0]));
        let j = choose|j: int| 0 <= j < b.len() && b[j] == a[0];
        assert(b.contains(b[0]));
        let k = choose|k: int| 0 <= k < a.len() && a[k] == b[0];
        if j > 0 {
            assert(lex_lt(b[0], b[j]));
            if k > 0 {
                assert(lex_lt(a[0], a[k]));
                lemma_lex_order(a[0], b[0], a[0]);
            } else {
                lemma_lex_order(b[0], a[0], b[0]);
            }
        }
        assert(a[0] == b[0]);
        let a1 = a.drop_first();
        let b1 = b.drop_first();
        assert forall|x: Seq<char>| a1.contains(x) <==> b1.contains(x) by {
            if a1.contains(x) {
                let i = choose|i: int| 0 <= i < a1.len() && a1[i] == x;
                assert(a[i + 1] == x);
                assert(lex_lt(a[0], a[i + 1]));
                lemma_lex_order(x, x, x);
                assert(a.contains(x));
                let m = choose|m: int| 0 <= m < b.len() && b[m] == x;
                assert(m != 0);
                assert(b1[m - 1] == x);
            }
            if b1.contains(x) {
                let i = choose|i: int| 0 <= i < b1.len() && b1[i] == x;
                assert(b[i + 1] == x);
                assert(lex_lt(b[0], b[i + 1]));
                lemma_lex_order(x, x, x);
                assert(b.contains(x));
                let m = choose|m: int| 0 <= m < a.len() && a[m] == x;
                assert(m != 0);
                assert(a1[m - 1] == x);
            }
        }
        assert forall|i: int, j: int| 0 <= i < j < a1.len() implies lex_lt(#[trigger] a1[i], #[trigger] a1[j]) by {
            assert(a1[i] == a[i + 1] && a1[j] == a[j + 1]);
        }
        assert forall|i: int, j: int| 0 <= i < j < b1.len() implies lex_lt(#[trigger] b1[i], #[trigger] b1[j]) by {
            assert(b1[i] == b[i + 1] && b1[j] == b[j + 1]);
        }
        lemma_sorted_ids_unique(a1, b1);
        assert(a =~= seq![a[0]] + a1);
        assert(b =~= seq![b[0]] + b1);
    }
}

/// The identifiers of candidates, in order.
pub open spec fn candidate_ids(candidates: Seq<Instrument>) -> Seq<Seq<char>> {
    candidates.map_values(|c: Instrument| c.instrument_id@)
}

/// A query has one candidate list over the catalog: the identifiers of its
/// matching entries in increasing order, each with the instrument of its
/// first matching entry.
proof fn lemma_candidate_list_unique(
    c1: Seq<Instrument>,
    c2: Seq<Instrument>,
    entries: Seq<CatalogEntry>,
    q: Seq<char>,
)
    requires
        is_candidate_list(c1, entries, q),
        is_candidate_list(c2, entries, q),
    ensures
        c1 == c2,
{
    let n = entries.len() as int;
    let a = candidate_ids(c1);
    let b = candidate_ids(c2);
    assert forall|i: int, j: int| 0 <= i < j < a.len() implies lex_lt(#[trigger] a[i], #[trigger] a[j]) by {
        assert(lex_lt(c1[i].instrument_id@, c1[j].instrument_id@));
    }
    assert forall|i: int, j: int| 0 <= i < j < b.len() implies lex_lt(#[trigger] b[i], #[trigger] b[j]) by {
        assert(lex_lt(c2[i].instrument_id@, c2[j].instrument_id@));
    }
    reveal(is_first_match);
    assert forall|x: Seq<char>| a.contains(x) implies b.contains(x) by {
        let i = choose|i: int| 0 <= i < a.len() && a[i] == x;
        assert(has_origin(c1, entries, q, i, n));
        let k = choose|k: int| #[trigger] is_first_match(entries, q, k, n) && entries[k].instrument == c1[i];
        assert(is_listed(c2, entries, k));
        let m = choose|m: int| 0 <= m < c2.len() && #[trigger] c2[m].instrument_id@ == entry_id(entries[k]);
        assert(b[m] == x);
    }
    assert forall|x: Seq<char>| b.contains(x) implies a.contains(x) by {
        let i = choose|i: int| 0 <= i < b.len() && b[i] == x;
        assert(has_origin(c2, entries, q, i, n));
        let k = choose|k: int| #[trigger] is_first_match(entries, q, k, n) && entries[k].instrument == c2[i];
        assert(is_listed(c1, entries, k));
        let m = choose|m: int| 0 <= m < c1.len() && #[trigger] c1[m].instrument_id@ == entry_id(entries[k]);
        assert(a[m] == x);
    }
    lemma_sorted_ids_unique(a, b);
    assert(c1.len() == a.len() && c2.len() == b.len());
    assert forall|i: int| 0 <= i < c1.len() implies c1[i] == c2[i] by {
        assert(has_origin(c1, entries, q, i, n));
        assert(has_origin(c2, entries, q, i, n));
        let k1 = choose|k: int| #[trigger] is_first_match(entries, q, k, n) && entries[k].instrument == c1[i];
        let k2 = choose|k: int| #[trigger] is_first_match(entries, q, k, n) && entries[k].instrument == c2[i];
        assert(a[i] == b[i]);
        assert(entry_id(entries[k1]) == entry_id(entries[k2]));
        if k1 < k2 {
            assert(entry_id(entries[k1]) != entry_id(entries[k2]));
        }
        if k2 < k1 {
            assert(entry_id(entries[k2]) != entry_id(entries[k1]));
        }
    }
    assert(c1 =~= c2);
}

/// Queries with the same normalized form get the same answer, wherever
/// some catalog entry matches them: the same instrument, or the same
/// candidates in the same order.
pub proof fn lemma_same_normal_form_same_answer(
    r1: Resolution,
    r2: Resolution,
    entries: Seq<CatalogEntry>,
    q1: Seq<char>,
    q2: Seq<char>,
)
    requires
        resolution_ok(r1, entries, q1),
        resolution_ok(r2, entries, q2),
        normalized(q1) == normalized(q2),
        !(r1 is UnsupportedAsset),
    ensures
        match (r1, r2) {
            (Resolution::Found { instrument: i1 }, Resolution::Found { instrument: i2 }) => i1 == i2,
            (
                Resolution::AmbiguousAsset { candidates: c1 },
                Resolution::AmbiguousAsset { candidates: c2 },
            ) => c1@ == c2@,
            _ => false,
        },
{
    let q = normalized(q1);
    let c1 = match r1 {
        Resolution::Found { instrument } => seq![instrument],
        Resolution::AmbiguousAsset { candidates } => candidates@,
        Resolution::UnsupportedAsset { .. } => Seq::empty(),
    };
    assert(is_candidate_list(c1, entries, q));
    assert(has_origin(c1, entries, q, 0, entries.len() as int));
    reveal(is_first_match);
    let k = choose|k: int| #[trigger] is_first_match(entries, q, k, entries.len() as int) && entries[k].instrument == c1[0];
    match r2 {
        Resolution::UnsupportedAsset { .. } => {
            assert(!entry_matches(entries[k], q));
        },
        Resolution::Found { instrument } => {
            lemma_candidate_list_unique(c1, seq![instrument], entries, q);
        },
        Resolution::AmbiguousAsset { candidates } => {
            lemma_candidate_list_unique(c1, candidates@, entries, q);
        },
    }
}

} // verus!
