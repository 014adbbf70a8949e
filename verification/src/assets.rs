//! Tradable assets of the exchanges, and the spot/future pairs that can be
//! monitored for arbitrage.
use crate::keyed::{insert_key, keyed_map, keys_unique};
use crate::symbols::{future_symbol, gate_split_name, joined, spot_symbol};
use crate::text::{after_spec, before_spec, owned};
use vstd::prelude::*;

verus! {

#[derive(Debug, Clone, Copy, PartialEq, Eq, Structural)]
pub enum MarketType {
    Spot,
    Future,
}

/// A tradable market of an exchange.
#[derive(Debug)]
pub struct Asset {
    pub symbol: String,
    pub base: String,
    pub quote: String,
    pub market: MarketType,
    pub exchange: String,
}

impl Clone for Asset {
    fn clone(&self) -> (r: Asset)
        ensures
            r == *self,
    {
        Asset {
            symbol: self.symbol.clone(),
            base: self.base.clone(),
            quote: self.quote.clone(),
            market: self.market,
            exchange: self.exchange.clone(),
        }
    }
}

/// The fields of one entry of Binance's `exchangeInfo` symbol list.
pub struct BinanceSymbolInfo {
    pub status: Option<String>,
    pub base_asset: Option<String>,
    pub quote_asset: Option<String>,
}

/// The fields of one entry of Gate's pair or contract list.
pub struct GateSymbolInfo {
    /// `status` of a futures contract.
    pub status: Option<String>,
    /// `trade_status` of a spot pair.
    pub trade_status: Option<String>,
    /// `name` of a futures contract.
    pub name: Option<String>,
    /// `id` of a spot pair.
    pub id: Option<String>,
}

pub open spec fn text_or_empty(s: Option<String>) -> Seq<char> {
    match s {
        Some(t) => t@,
        None => Seq::empty(),
    }
}

/// The unified symbol of a market: `BASE/QUOTE` on spot, `BASE/QUOTE:QUOTE`
/// for futures.
pub open spec fn market_symbol(base: Seq<char>, quote: Seq<char>, market: MarketType) -> Seq<char> {
    match market {
        MarketType::Spot => joined(base, '/', quote),
        MarketType::Future => joined(joined(base, '/', quote), ':', quote),
    }
}

pub open spec fn asset_is(a: Asset, base: Seq<char>, quote: Seq<char>, market: MarketType, exchange: Seq<char>) -> bool {
    &&& a.symbol@ == market_symbol(base, quote, market)
    &&& a.base@ == base
    &&& a.quote@ == quote
    &&& a.market == market
    &&& a.exchange@ == exchange
}

/// The Binance entries that are trading (status `TRADING`), in order.
pub open spec fn binance_trading(infos: Seq<BinanceSymbolInfo>) -> Seq<BinanceSymbolInfo> {
    infos.filter(|i: BinanceSymbolInfo| text_or_empty(i.status) == "TRADING"@ && i.status is Some)
}

fn text_of(s: &Option<String>) -> (r: String)
    ensures
        r@ == text_or_empty(*s),
{
    match s {
        Some(t) => t.clone(),
        None => String::new(),
    }
}

fn make_asset(base: String, quote: String, market: MarketType, exchange: &str) -> (r: Asset)
    ensures
        asset_is(r, base@, quote@, market, exchange@),
{
    let symbol = match market {
        MarketType::Spot => spot_symbol(base.as_str(), quote.as_str()),
        MarketType::Future => future_symbol(base.as_str(), quote.as_str(), quote.as_str()),
    };
    Asset { symbol, base, quote, market, exchange: owned(exchange) }
}

/// The Binance markets that are trading, in the order listed: a missing base
/// or quote counts as empty.
pub fn binance_assets(infos: &Vec<BinanceSymbolInfo>, market: MarketType) -> (r: Vec<Asset>)
    ensures
        r@.len() == binance_trading(infos@).len(),
        forall|k: int| 0 <= k < r@.len() ==> asset_is(
            #[trigger] r@[k],
            text_or_empty(binance_trading(infos@)[k].base_asset),
            text_or_empty(binance_trading(infos@)[k].quote_asset),
            market,
            "Binance"@,
        ),
{
    let mut r: Vec<Asset> = Vec::new();
    let mut i: usize = 0;
    let trading = owned("TRADING");
    while i < infos.len()
        invariant
            i <= infos@.len(),
            trading@ == "TRADING"@,
            r@.len() == binance_trading(infos@.take(i as int)).len(),
            forall|k: int| 0 <= k < r@.len() ==> asset_is(
                #[trigger] r@[k],
                text_or_empty(binance_trading(infos@.take(i as int))[k].base_asset),
                text_or_empty(binance_trading(infos@.take(i as int))[k].quote_asset),
                market,
                "Binance"@,
            ),
        decreases infos@.len() - i,
    {
        let ghost before = infos@.take(i as int);
        proof {
            let t = infos@.take(i as int + 1);
            assert(t.drop_last() =~= before);
            assert(t.last() == infos@[i as int]);
            reveal(Seq::filter);
        }
        let keep = match &infos[i].status {
            Some(s) => *s == trading,
            None => false,
        };
        if keep {
            let a = make_asset(text_of(&infos[i].base_asset), text_of(&infos[i].quote_asset), market, "Binance");
            r.push(a);
        }
        i = i + 1;
    }
    proof {
        assert(infos@.take(infos@.len() as int) =~= infos@);
    }
    r
}

/// The name of a Gate entry (`name` for futures, `id` for spot), empty when
/// missing.
pub open spec fn gate_name(info: GateSymbolInfo, market: MarketType) -> Seq<char> {
    match market {
        MarketType::Future => text_or_empty(info.name),
        MarketType::Spot => text_or_empty(info.id),
    }
}

/// A Gate entry is tradable: a futures contract with status `trading`, or a
/// spot pair with trade status `tradable`.
pub open spec fn gate_tradable(info: GateSymbolInfo, market: MarketType) -> bool {
    match market {
        MarketType::Future => info.status is Some && text_or_empty(info.status) == "trading"@,
        MarketType::Spot => info.trade_status is Some && text_or_empty(info.trade_status) == "tradable"@,
    }
}

pub open spec fn gate_listed(infos: Seq<GateSymbolInfo>, market: MarketType) -> Seq<GateSymbolInfo> {
    infos.filter(|i: GateSymbolInfo| gate_tradable(i, market))
}

/// Tradable markets of Gate, in the order listed; the name is split
/// at its first `_` into base and quote.
pub fn gate_assets(infos: &Vec<GateSymbolInfo>, market: MarketType) -> (r: Vec<Asset>)
    ensures
        r@.len() == gate_listed(infos@, market).len(),
        forall|k: int| 0 <= k < r@.len() ==> asset_is(
            #[trigger] r@[k],
            before_spec(gate_name(gate_listed(infos@, market)[k], market), '_'),
            after_spec(gate_name(gate_listed(infos@, market)[k], market), '_'),
            market,
            "Gate"@,
        ),
{
    let mut r: Vec<Asset> = Vec::new();
    let mut i: usize = 0;
    let trading = owned("trading");
    let tradable = owned("tradable");
    while i < infos.len()
        invariant
            i <= infos@.len(),
            trading@ == "trading"@,
            tradable@ == "tradable"@,
            r@.len() == gate_listed(infos@.take(i as int), market).len(),
            forall|k: int| 0 <= k < r@.len() ==> asset_is(
                #[trigger] r@[k],
                before_spec(gate_name(gate_listed(infos@.take(i as int), market)[k], market), '_'),
                after_spec(gate_name(gate_listed(infos@.take(i as int), market)[k], market), '_'),
                market,
                "Gate"@,
            ),
        decreases infos@.len() - i,
    {
        proof {
            let t = infos@.take(i as int + 1);
            assert(t.drop_last() =~= infos@.take(i as int));
            assert(t.last() == infos@[i as int]);
            reveal(Seq::filter);
        }
        let keep = match market {
            MarketType::Future => match &infos[i].status {
                Some(s) => *s == trading,
                None => false,
            },
            MarketType::Spot => match &infos[i].trade_status {
                Some(s) => *s == tradable,
                None => false,
            },
        };
        if keep {
            let name = match market {
                MarketType::Future => text_of(&infos[i].name),
                MarketType::Spot => text_of(&infos[i].id),
            };
            let (base, quote) = gate_split_name(name.as_str());
            let a = make_asset(base, quote, market, "Gate");
            r.push(a);
        }
        i = i + 1;
    }
    proof {
        assert(infos@.take(infos@.len() as int) =~= infos@);
    }
    r
}

/// The assets of the listings with symbol `sym` in market `m`, in order.
pub open spec fn listed(entries: Seq<(Asset, MarketType)>, sym: Seq<char>, m: MarketType) -> Seq<Asset>
    decreases entries.len(),
{
    if entries.len() == 0 {
        Seq::empty()
    } else {
        let rest = listed(entries.drop_last(), sym, m);
        let e = entries.last();
        if e.0.symbol@ == sym && e.1 == m {
            rest.push(e.0)
        } else {
            rest
        }
    }
}

/// Every spot asset paired with every future asset, spot-major.
pub open spec fn cross(spots: Seq<Asset>, futures: Seq<Asset>) -> Seq<(Asset, Asset)>
    decreases spots.len(),
{
    if spots.len() == 0 {
        Seq::empty()
    } else {
        cross(spots.drop_last(), futures) + futures.map_values(|f: Asset| (spots.last(), f))
    }
}

/// The pairs monitored for the symbol `sym`.
pub open spec fn pairs_for(entries: Seq<(Asset, MarketType)>, sym: Seq<char>) -> Seq<(Asset, Asset)> {
    cross(listed(entries, sym, MarketType::Spot), listed(entries, sym, MarketType::Future))
}

fn listed_exec(entries: &Vec<(Asset, MarketType)>, sym: &String, m: MarketType) -> (r: Vec<Asset>)
    ensures
        r@ == listed(entries@, sym@, m),
{
    let mut r: Vec<Asset> = Vec::new();
    let mut i: usize = 0;
    while i < entries.len()
        invariant
            i <= entries@.len(),
            r@ == listed(entries@.take(i as int), sym@, m),
        decreases entries@.len() - i,
    {
        proof {
            let t = entries@.take(i as int + 1);
            assert(t.drop_last() =~= entries@.take(i as int));
            assert(t.last() == entries@[i as int]);
        }
        if entries[i].0.symbol == *sym && entries[i].1 == m {
            r.push(entries[i].0.clone());
        }
        i = i + 1;
    }
    proof {
        assert(entries@.take(entries@.len() as int) =~= entries@);
    }
    r
}

fn cross_exec(spots: &Vec<Asset>, futures: &Vec<Asset>) -> (r: Vec<(Asset, Asset)>)
    ensures
        r@ == cross(spots@, futures@),
{
    let mut r: Vec<(Asset, Asset)> = Vec::new();
    let mut i: usize = 0;
    while i < spots.len()
        invariant
            i <= spots@.len(),
            r@ == cross(spots@.take(i as int), futures@),
        decreases spots@.len() - i,
    {
        let ghost r0 = r@;
        let mut j: usize = 0;
        while j < futures.len()
            invariant
                i < spots@.len(),
                j <= futures@.len(),
                r@ =~= r0 + futures@.take(j as int).map_values(|f: Asset| (spots@[i as int], f)),
            decreases futures@.len() - j,
        {
            r.push((spots[i].clone(), futures[j].clone()));
            j = j + 1;
        }
        proof {
            let t = spots@.take(i as int + 1);
            assert(t.drop_last() =~= spots@.take(i as int));
            assert(t.last() == spots@[i as int]);
            assert(futures@.take(futures@.len() as int) =~= futures@);
        }
        i = i + 1;
    }
    proof {
        assert(spots@.take(spots@.len() as int) =~= spots@);
    }
    r
}

/// Some of the strings is `sym`.
pub open spec fn symbol_listed(symbols: Seq<String>, sym: Seq<char>) -> bool {
    exists|k: int| 0 <= k < symbols.len() && (#[trigger] symbols[k])@ == sym
}

/// Some listing has symbol `sym`.
pub open spec fn has_symbol(entries: Seq<(Asset, MarketType)>, sym: Seq<char>) -> bool {
    exists|i: int| 0 <= i < entries.len() && (#[trigger] entries[i]).0.symbol@ == sym
}

proof fn lemma_listed_needs_symbol(entries: Seq<(Asset, MarketType)>, sym: Seq<char>, m: MarketType)
    ensures
        listed(entries, sym, m).len() > 0 ==> has_symbol(entries, sym),
    decreases entries.len(),
{
    if entries.len() > 0 {
        lemma_listed_needs_symbol(entries.drop_last(), sym, m);
        if listed(entries.drop_last(), sym, m).len() > 0 {
            let i = choose|i: int| 0 <= i < entries.drop_last().len() && (#[trigger] entries.drop_last()[i]).0.symbol@ == sym;
            assert(entries[i] == entries.drop_last()[i]);
        } else if listed(entries, sym, m).len() > 0 {
            assert(entries[entries.len() - 1] == entries.last());
        }
    }
}

/// The spot/future pairs to monitor: for every symbol listed both on spot and
/// on futures, each of its spot assets with each of its future assets, in
/// listing order. Symbols come in order of first listing, once each, and a
/// symbol without a pair is left out.
pub fn cross_assets(entries: &Vec<(Asset, MarketType)>) -> (r: Vec<(String, Vec<(Asset, Asset)>)>)
    ensures
        forall|k: int| 0 <= k < r@.len() ==> (#[trigger] r@[k]).1@ == pairs_for(entries@, r@[k].0@)
            && r@[k].1@.len() > 0,
        forall|a: int, b: int| 0 <= a < b < r@.len() ==> (#[trigger] r@[a]).0@ != (#[trigger] r@[b]).0@,
        forall|sym: Seq<char>| #[trigger] pairs_for(entries@, sym).len() > 0 ==> exists|k: int|
            0 <= k < r@.len() && (#[trigger] r@[k]).0@ == sym,
{
    // the symbols in order of first listing
    let mut symbols: Vec<String> = Vec::new();
    let mut i: usize = 0;
    while i < entries.len()
        invariant
            i <= entries@.len(),
            forall|a: int, b: int| 0 <= a < b < symbols@.len() ==> (#[trigger] symbols@[a])@ != (#[trigger] symbols@[b])@,
            forall|j: int| 0 <= j < i ==> symbol_listed(symbols@, (#[trigger] entries@[j]).0.symbol@),
        decreases entries@.len() - i,
    {
        let mut found = false;
        let mut k: usize = 0;
        while k < symbols.len()
            invariant
                i < entries@.len(),
                k <= symbols@.len(),
                found ==> exists|x: int| 0 <= x < symbols@.len() && (#[trigger] symbols@[x])@ == entries@[i as int].0.symbol@,
                !found ==> forall|x: int| 0 <= x < k ==> (#[trigger] symbols@[x])@ != entries@[i as int].0.symbol@,
            decreases symbols@.len() - k,
        {
            if symbols[k] == entries[i].0.symbol {
                found = true;
            }
            k = k + 1;
        }
        if !found {
            let ghost s0 = symbols@;
            symbols.push(entries[i].0.symbol.clone());
            proof {
                assert forall|a: int, b: int| 0 <= a < b < symbols@.len() implies (#[trigger] symbols@[a])@ != (#[trigger] symbols@[b])@ by {
                    if b == s0.len() {
                        assert(symbols@[a] == s0[a]);
                    } else {
                        assert(symbols@[a] == s0[a] && symbols@[b] == s0[b]);
                    }
                }
                assert forall|j: int| 0 <= j < i + 1 implies symbol_listed(symbols@, (#[trigger] entries@[j]).0.symbol@) by {
                    if j == i {
                        assert(symbols@[s0.len() as int]@ == entries@[j].0.symbol@);
                    } else {
                        let k = choose|k: int| 0 <= k < s0.len() && (#[trigger] s0[k])@ == entries@[j].0.symbol@;
                        assert(symbols@[k] == s0[k]);
                    }
                }
            }
        }
        i = i + 1;
    }
    let mut r: Vec<(String, Vec<(Asset, Asset)>)> = Vec::new();
    let mut s: usize = 0;
    while s < symbols.len()
        invariant
            s <= symbols@.len(),
            forall|a: int, b: int| 0 <= a < b < symbols@.len() ==> (#[trigger] symbols@[a])@ != (#[trigger] symbols@[b])@,
            forall|j: int| 0 <= j < entries@.len() ==> symbol_listed(symbols@, (#[trigger] entries@[j]).0.symbol@),
            forall|k: int| 0 <= k < r@.len() ==> (#[trigger] r@[k]).1@ == pairs_for(entries@, r@[k].0@)
                && r@[k].1@.len() > 0,
            forall|k: int| 0 <= k < r@.len() ==> exists|x: int| 0 <= x < s && (#[trigger] symbols@[x])@ == (#[trigger] r@[k]).0@,
            forall|a: int, b: int| 0 <= a < b < r@.len() ==> (#[trigger] r@[a]).0@ != (#[trigger] r@[b]).0@,
            forall|x: int| 0 <= x < s && #[trigger] pairs_for(entries@, symbols@[x]@).len() > 0 ==> exists|k: int|
                0 <= k < r@.len() && (#[trigger] r@[k]).0@ == symbols@[x]@,
        decreases symbols@.len() - s,
    {
        let spots = listed_exec(entries, &symbols[s], MarketType::Spot);
        let futures = listed_exec(entries, &symbols[s], MarketType::Future);
        let pairs = cross_exec(&spots, &futures);
        if pairs.len() > 0 {
            let ghost r0 = r@;
            r.push((symbols[s].clone(), pairs));
            proof {
                assert forall|k: int| 0 <= k < r@.len() implies exists|x: int| 0 <= x < s + 1 && (#[trigger] symbols@[x])@ == (#[trigger] r@[k]).0@ by {
                    if k < r0.len() {
                        assert(r@[k] == r0[k]);
                        let x = choose|x: int| 0 <= x < s && (#[trigger] symbols@[x])@ == r0[k].0@;
                    } else {
                        assert(symbols@[s as int]@ == r@[k].0@);
                    }
                }
                assert forall|a: int, b: int| 0 <= a < b < r@.len() implies (#[trigger] r@[a]).0@ != (#[trigger] r@[b]).0@ by {
                    if b == r0.len() {
                        assert(r@[a] == r0[a]);
                        let x = choose|x: int| 0 <= x < s && (#[trigger] symbols@[x])@ == r0[a].0@;
                        assert(symbols@[x]@ != symbols@[s as int]@);
                    } else {
                        assert(r@[a] == r0[a] && r@[b] == r0[b]);
                    }
                }
                assert forall|x: int| 0 <= x < s + 1 && #[trigger] pairs_for(entries@, symbols@[x]@).len() > 0 implies exists|k: int|
                    0 <= k < r@.len() && (#[trigger] r@[k]).0@ == symbols@[x]@ by {
                    if x < s {
                        let k = choose|k: int| 0 <= k < r0.len() && (#[trigger] r0[k]).0@ == symbols@[x]@;
                        assert(r@[k] == r0[k]);
                    } else {
                        assert(r@[r0.len() as int].0@ == symbols@[x]@);
                    }
                }
            }
        }
        s = s + 1;
    }
    proof {
        assert forall|sym: Seq<char>| #[trigger] pairs_for(entries@, sym).len() > 0 implies exists|k: int|
            0 <= k < r@.len() && (#[trigger] r@[k]).0@ == sym by {
            lemma_listed_needs_symbol(entries@, sym, MarketType::Spot);
            let j = choose|j: int| 0 <= j < entries@.len() && (#[trigger] entries@[j]).0.symbol@ == sym;
            assert(symbol_listed(symbols@, entries@[j].0.symbol@));
            let x = choose|x: int| 0 <= x < symbols@.len() && (#[trigger] symbols@[x])@ == entries@[j].0.symbol@;
            assert(pairs_for(entries@, symbols@[x]@).len() > 0);
        }
    }
    r
}

/// The worker that handles `key`: the one already assigned to it, else the
/// next one (taken round-robin over `workers` when given); a new assignment is
/// remembered and moves the counter on (wrapping).
pub fn assign_worker(
    symbol_map: &mut Vec<(String, u32)>,
    key: &String,
    next_worker: &mut u32,
    workers: Option<u32>,
) -> (r: u32)
    requires
        workers matches Some(w) ==> w > 0,
    ensures
        (exists|i: int| 0 <= i < old(symbol_map)@.len() && (#[trigger] old(symbol_map)@[i]).0@ == key@)
            ==> *final(next_worker) == *old(next_worker) && final(symbol_map)@ == old(symbol_map)@
            && exists|i: int| 0 <= i < old(symbol_map)@.len() && (#[trigger] old(symbol_map)@[i]).0@ == key@
            && old(symbol_map)@[i].1 == r,
        !(exists|i: int| 0 <= i < old(symbol_map)@.len() && (#[trigger] old(symbol_map)@[i]).0@ == key@)
            ==> r == (match workers {
                Some(w) => (*old(next_worker) % w) as u32,
                None => *old(next_worker),
            }) && *final(next_worker) == (if *old(next_worker) == u32::MAX { 0 } else { (*old(next_worker) + 1) as u32 })
            && final(symbol_map)@.len() == old(symbol_map)@.len() + 1
            && final(symbol_map)@.take(old(symbol_map)@.len() as int) == old(symbol_map)@
            && final(symbol_map)@.last().0@ == key@ && final(symbol_map)@.last().1 == r,
{
    let mut i: usize = 0;
    while i < symbol_map.len()
        invariant
            symbol_map@ == old(symbol_map)@,
            *next_worker == *old(next_worker),
            i <= symbol_map@.len(),
            forall|j: int| 0 <= j < i ==> (#[trigger] symbol_map@[j]).0@ != key@,
        decreases symbol_map@.len() - i,
    {
        if symbol_map[i].0 == *key {
            return symbol_map[i].1;
        }
        i = i + 1;
    }
    let id = *next_worker;
    *next_worker = next_worker.wrapping_add(1);
    let r = match workers {
        Some(w) => id % w,
        None => id,
    };
    symbol_map.push((key.clone(), r));
    proof {
        assert(symbol_map@.take(old(symbol_map)@.len() as int) =~= old(symbol_map)@);
    }
    r
}

/// The assets by symbol; for a symbol listed twice the later asset counts.
pub open spec fn by_symbol(list: Seq<Asset>) -> Map<Seq<char>, Asset>
    decreases list.len(),
{
    if list.len() == 0 {
        Map::empty()
    } else {
        by_symbol(list.drop_last()).insert(list.last().symbol@, list.last())
    }
}

/// An exchange's markets of one type indexed by symbol, as collecting them
/// into a map does.
pub fn assets_by_symbol(list: &Vec<Asset>) -> (r: Vec<(String, Asset)>)
    ensures
        keys_unique(r@),
        keyed_map(r@) == by_symbol(list@),
{
    let mut out: Vec<(String, Asset)> = Vec::new();
    let mut i: usize = 0;
    proof {
        assert(keyed_map(out@) =~= Map::<Seq<char>, Asset>::empty());
    }
    while i < list.len()
        invariant
            i <= list@.len(),
            keys_unique(out@),
            keyed_map(out@) == by_symbol(list@.take(i as int)),
        decreases list@.len() - i,
    {
        let a = list[i].clone();
        insert_key(&mut out, a.symbol.clone(), a);
        proof {
            let t = list@.take(i as int + 1);
            assert(t.drop_last() =~= list@.take(i as int));
            assert(t.last() == list@[i as int]);
        }
        i = i + 1;
    }
    proof {
        assert(list@.take(list@.len() as int) =~= list@);
    }
    out
}

} // verus!
