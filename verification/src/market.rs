//! All markets of the service, by symbol.

use crate::config::{AppConfig, SymbolConfig};
use crate::generator::{GeneratorView, MarketGenerator};
use crate::streaming::is_fresh;
use dashmap::mapref::one::{Ref, RefMut};
use dashmap::DashMap;
use vstd::prelude::*;

verus! {

/// The concurrent map of the `dashmap` crate.
#[verifier::external_type_specification]
#[verifier::external_body]
#[verifier::reject_recursive_types(K)]
#[verifier::reject_recursive_types(V)]
#[verifier::reject_recursive_types(S)]
pub struct ExDashMap<K, V, S>(DashMap<K, V, S>);

/// The markets that a map holds, by symbol, each with the state in which it was inserted.
pub uninterp spec fn markets_in(map: DashMap<String, MarketGenerator>) -> Map<
    Seq<char>,
    GeneratorView,
>;

/// Calls `dashmap::DashMap::new`. Trusted: the map is empty.
#[verifier::external_body]
fn no_markets() -> (r: DashMap<String, MarketGenerator>)
    ensures
        markets_in(r).dom() == Set::<Seq<char>>::empty(),
{
    DashMap::new()
}

/// Calls `dashmap::DashMap::insert` on a map that nobody else holds. Trusted: the market is
/// stored under the symbol, in place of any other.
#[verifier::external_body]
fn insert_market(
    map: &mut DashMap<String, MarketGenerator>,
    symbol: String,
    market: MarketGenerator,
)
    ensures
        markets_in(*final(map)) == markets_in(*old(map)).insert(symbol@, market@),
{
    map.insert(symbol, market);
}

/// Calls `dashmap::DashMap::iter` and takes the keys. Trusted, of a map to which nobody adds
/// a symbol meanwhile: every symbol comes out once. In which order is left open.
#[verifier::external_body]
fn symbols_in(map: &DashMap<String, MarketGenerator>) -> (r: Vec<String>)
    ensures
        r@.map_values(|s: String| s@).no_duplicates(),
        r@.map_values(|s: String| s@).to_set() == markets_in(*map).dom(),
{
    map.iter().map(|item| item.key().clone()).collect()
}

/// The lock of the `dashmap` crate on one entry, for reading.
#[verifier::external_type_specification]
#[verifier::external_body]
#[verifier::reject_recursive_types(K)]
#[verifier::reject_recursive_types(V)]
pub struct ExRef<'a, K, V>(Ref<'a, K, V>);

/// The lock of the `dashmap` crate on one entry, for writing.
#[verifier::external_type_specification]
#[verifier::external_body]
#[verifier::reject_recursive_types(K)]
#[verifier::reject_recursive_types(V)]
pub struct ExRefMut<'a, K, V>(RefMut<'a, K, V>);

/// The symbol of the entry behind a lock for reading.
pub uninterp spec fn symbol_behind(entry: Ref<'_, String, MarketGenerator>) -> Seq<char>;

/// The state of the market behind a lock for reading, which no one changes while the lock is
/// held.
pub uninterp spec fn state_behind(entry: Ref<'_, String, MarketGenerator>) -> GeneratorView;

/// The entry behind a lock for reading is one of the map.
pub uninterp spec fn is_entry_of(
    entry: Ref<'_, String, MarketGenerator>,
    map: DashMap<String, MarketGenerator>,
) -> bool;

/// The entry behind a lock for writing is one of the map.
pub uninterp spec fn is_held_in(
    entry: RefMut<'_, String, MarketGenerator>,
    map: DashMap<String, MarketGenerator>,
) -> bool;

/// The symbol of the entry behind a lock for writing.
pub uninterp spec fn symbol_held(entry: RefMut<'_, String, MarketGenerator>) -> Seq<char>;

/// Calls `dashmap::DashMap::get`. Trusted, of a map to which nobody adds a symbol meanwhile:
/// the entry is missing exactly when the map has no such symbol, and otherwise is that of the
/// symbol in this map. The state of its market is left open, since others may have moved it
/// on.
#[verifier::external_body]
fn market_entry<'a>(map: &'a DashMap<String, MarketGenerator>, symbol: &String) -> (r: Option<
    Ref<'a, String, MarketGenerator>,
>)
    ensures
        r is Some <==> markets_in(*map).contains_key(symbol@),
        r matches Some(entry) ==> symbol_behind(entry) == symbol@ && is_entry_of(entry, *map),
{
    map.get(symbol)
}

/// Calls `dashmap::DashMap::get_mut`. Trusted, of a map to which nobody adds a symbol
/// meanwhile: the entry is missing exactly when the map has no such symbol, and otherwise is
/// that of the symbol in this map. The state of its market is left open, since others may have
/// moved it on.
#[verifier::external_body]
fn market_entry_mut<'a>(map: &'a DashMap<String, MarketGenerator>, symbol: &String) -> (r: Option<
    RefMut<'a, String, MarketGenerator>,
>)
    ensures
        r is Some <==> markets_in(*map).contains_key(symbol@),
        r matches Some(entry) ==> symbol_held(entry) == symbol@ && is_held_in(entry, *map),
{
    map.get_mut(symbol)
}

/// Calls `dashmap::mapref::one::Ref::value`. Trusted: the market has the state that is fixed
/// while the lock is held.
#[verifier::external_body]
pub(crate) fn market_behind<'r, 'a>(entry: &'r Ref<'a, String, MarketGenerator>) -> (r:
    &'r MarketGenerator)
    ensures
        r@ == state_behind(*entry),
{
    entry.value()
}

/// The markets of the service, by symbol. The symbols are fixed when the markets are made; the
/// markets themselves move on, each behind its own lock.
pub struct Markets {
    map: DashMap<String, MarketGenerator>,
}

impl View for Markets {
    type V = Map<Seq<char>, GeneratorView>;

    /// The symbols, each with the state in which its market began.
    closed spec fn view(&self) -> Map<Seq<char>, GeneratorView> {
        markets_in(self.map)
    }
}

/// A market that has seen no tick, with the parameters of its symbol.
pub open spec fn fresh_market(symbol: SymbolConfig, history_size: nat) -> GeneratorView {
    GeneratorView {
        symbol: symbol.name@,
        current_price: symbol.initial_price,
        drift: symbol.drift,
        volatility: symbol.volatility,
        spread: symbol.spread,
        change_1h: None,
        change_24h: None,
        last_candle_minute: None,
        current_candle: None,
        prev_candle: None,
        history: Seq::empty(),
        max_history: history_size,
    }
}

/// One fresh market for each symbol; of several with the same name the last.
pub open spec fn fresh_markets(symbols: Seq<SymbolConfig>, history_size: nat) -> Map<
    Seq<char>,
    GeneratorView,
>
    decreases symbols.len(),
{
    if symbols.len() == 0 {
        Map::empty()
    } else {
        fresh_markets(symbols.drop_last(), history_size).insert(
            symbols.last().name@,
            fresh_market(symbols.last(), history_size),
        )
    }
}

impl Markets {
    /// The entry behind a lock for reading is one of these markets.
    pub closed spec fn holds(self, entry: Ref<'_, String, MarketGenerator>) -> bool {
        is_entry_of(entry, self.map)
    }

    /// The entry behind a lock for writing is one of these markets.
    pub closed spec fn lends(self, entry: RefMut<'_, String, MarketGenerator>) -> bool {
        is_held_in(entry, self.map)
    }

    /// The markets of all configured symbols.
    pub fn new(config: &AppConfig) -> (r: Markets)
        ensures
            r@ == fresh_markets(config.symbols@, config.tick_history_size as nat),
    {
        let mut map = no_markets();
        let count: usize = config.symbols.len();
        assert(config.symbols@.take(0) =~= Seq::empty());
        assert(markets_in(map) =~= Map::empty());
        for i in 0..count
            invariant
                count == config.symbols@.len(),
                markets_in(map) == fresh_markets(
                    config.symbols@.take(i as int),
                    config.tick_history_size as nat,
                ),
        {
            let symbol = &config.symbols[i];
            let market = MarketGenerator::new(
                symbol.name.as_str(),
                symbol.initial_price,
                symbol.drift,
                symbol.volatility,
                symbol.spread,
                config.tick_history_size,
            );
            insert_market(&mut map, symbol.name.clone(), market);
            proof {
                assert(config.symbols@.take(i + 1).drop_last() =~= config.symbols@.take(i as int));
                assert(config.symbols@.take(i + 1).last() == symbol);
            }
        }
        assert(config.symbols@.take(count as int) =~= config.symbols@);
        Markets { map }
    }

    /// The symbols that have a market, each once. It waits for locks for writing that someone
    /// else holds; the caller must hold none.
    pub fn symbols(&self) -> (r: Vec<String>)
        ensures
            r@.map_values(|s: String| s@).no_duplicates(),
            r@.map_values(|s: String| s@).to_set() == self@.dom(),
    {
        symbols_in(&self.map)
    }

    /// Locks the market of a symbol for reading, if it has one. It waits for a lock for
    /// writing that someone else holds; the caller must hold none.
    pub fn get<'a>(&'a self, symbol: &String) -> (r: Option<Ref<'a, String, MarketGenerator>>)
        ensures
            r is Some <==> self@.contains_key(symbol@),
            r matches Some(entry) ==> symbol_behind(entry) == symbol@ && self.holds(entry),
    {
        market_entry(&self.map, symbol)
    }

    /// Locks the market of a symbol for writing, if it has one. It waits for any lock that
    /// someone else holds; the caller must hold none.
    pub fn get_mut<'a>(&'a self, symbol: &String) -> (r: Option<
        RefMut<'a, String, MarketGenerator>,
    >)
        ensures
            r is Some <==> self@.contains_key(symbol@),
            r matches Some(entry) ==> symbol_held(entry) == symbol@ && self.lends(entry),
    {
        market_entry_mut(&self.map, symbol)
    }
}

/// Exactly the configured symbols have a market, and each market is fresh and carries its
/// symbol's name.
pub proof fn every_symbol_has_a_market(symbols: Seq<SymbolConfig>, history_size: nat)
    ensures
        forall|name: Seq<char>| #[trigger]
            fresh_markets(symbols, history_size).contains_key(name) <==> exists|i: int|
                0 <= i < symbols.len() && (#[trigger] symbols[i]).name@ == name,
        forall|name: Seq<char>|
            fresh_markets(symbols, history_size).contains_key(name) ==> {
                &&& (#[trigger] fresh_markets(symbols, history_size)[name]).symbol == name
                &&& is_fresh(fresh_markets(symbols, history_size)[name])
                &&& fresh_markets(symbols, history_size)[name].max_history == history_size
            },
    decreases symbols.len(),
{
    if symbols.len() > 0 {
        let before = symbols.drop_last();
        every_symbol_has_a_market(before, history_size);
        let markets = fresh_markets(symbols, history_size);
        assert forall|name: Seq<char>| #[trigger] markets.contains_key(name) <==> exists|i: int|
            0 <= i < symbols.len() && (#[trigger] symbols[i]).name@ == name by {
            if markets.contains_key(name) {
                if name == symbols.last().name@ {
                    assert(symbols[symbols.len() - 1].name@ == name);
                } else {
                    assert(fresh_markets(before, history_size).contains_key(name));
                    let i = choose|i: int|
                        0 <= i < before.len() && (#[trigger] before[i]).name@ == name;
                    assert(symbols[i].name@ == name);
                }
            }
            if exists|i: int| 0 <= i < symbols.len() && (#[trigger] symbols[i]).name@ == name {
                let i = choose|i: int|
                    0 <= i < symbols.len() && (#[trigger] symbols[i]).name@ == name;
                if i < before.len() {
                    assert(before[i].name@ == name);
                    assert(fresh_markets(before, history_size).contains_key(name));
                }
            }
        }
    }
}

/// Each symbol gets a market with its own parameters and the configured room for ticks; of
/// several with the same name the last counts.
pub proof fn markets_have_their_parameters(symbols: Seq<SymbolConfig>, history_size: nat, i: int)
    requires
        0 <= i < symbols.len(),
        forall|j: int| i < j < symbols.len() ==> (#[trigger] symbols[j]).name@ != symbols[i].name@,
    ensures
        fresh_markets(symbols, history_size).contains_key(symbols[i].name@),
        ({
            let market = fresh_markets(symbols, history_size)[symbols[i].name@];
            &&& market.symbol == symbols[i].name@
            &&& market.current_price == symbols[i].initial_price
            &&& market.drift == symbols[i].drift
            &&& market.volatility == symbols[i].volatility
            &&& market.spread == symbols[i].spread
            &&& market.change_1h is None
            &&& market.change_24h is None
            &&& market.last_candle_minute is None
            &&& market.current_candle is None
            &&& market.prev_candle is None
            &&& market.history.len() == 0
            &&& market.max_history == history_size
        }),
    decreases symbols.len(),
{
    if i < symbols.len() - 1 {
        let before = symbols.drop_last();
        assert(symbols[symbols.len() - 1].name@ != symbols[i].name@);
        assert forall|j: int| i < j < before.len() implies (#[trigger] before[j]).name@
            != before[i].name@ by {
            assert(symbols[j].name@ != symbols[i].name@);
        }
        markets_have_their_parameters(before, history_size, i);
    }
}

/// The markets are those of the map, and an entry belongs to them exactly when it is one of the
/// map.
proof fn markets_are_the_map(
    markets: Markets,
    entry: Ref<'_, String, MarketGenerator>,
    held: RefMut<'_, String, MarketGenerator>,
)
    ensures
        markets@ == markets_in(markets.map),
        markets.holds(entry) <==> is_entry_of(entry, markets.map),
        markets.lends(held) <==> is_held_in(held, markets.map),
{
}

} // verus!
