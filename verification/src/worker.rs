//! Requests handled by a worker, and the plan a monitor request starts: which
//! book of which exchange each monitored pair watches.
use crate::assets::Asset;
use crate::decimal::Dec;
use crate::symbols::{future_symbol, joined, spot_symbol};
use crate::text::{chars_of, has_char, owned};
use vstd::prelude::*;

verus! {

/// Keys of an exchange account.
#[derive(Debug, Clone)]
pub struct Credentials {
    pub api_key: String,
    pub secret: String,
    pub web_token: String,
}

/// A request to trade one symbol.
#[derive(Debug, Clone)]
pub struct StartArbitrage {
    pub symbol: String,
    pub quantity: Dec,
    pub max_per_order: Dec,
    pub entry_percent: Dec,
    pub exit_percent: Dec,
    pub index: i32,
    pub is_loop: bool,
    pub credentials: Credentials,
}

/// The latest premiums of a pair.
#[derive(Debug, Clone, Copy)]
pub struct ArbitrageResult {
    pub entry_percent: Dec,
    pub exit_percent: Dec,
}

/// A spot market of one exchange against a future market of another.
#[derive(Debug)]
pub struct Arbitrage {
    pub spot: Asset,
    pub future: Asset,
    pub result: ArbitrageResult,
}

impl Arbitrage {
    /// A pair with both premiums zero.
    pub fn new(spot: Asset, future: Asset) -> (r: Arbitrage)
        ensures
            r.spot == spot,
            r.future == future,
            r.result.entry_percent.val() == 0,
            r.result.exit_percent.val() == 0,
    {
        Arbitrage {
            spot,
            future,
            result: ArbitrageResult { entry_percent: Dec::zero(), exit_percent: Dec::zero() },
        }
    }
}

/// A request to monitor pairs.
#[derive(Debug)]
pub struct StartMonitor {
    pub items: Vec<Arbitrage>,
}

impl StartMonitor {
    /// The pairs of a received request, each with its premiums reset to zero
    /// (what arrives in them is not kept).
    pub fn from_pairs(inputs: Vec<Arbitrage>) -> (r: StartMonitor)
        ensures
            r.items@.len() == inputs@.len(),
            forall|i: int|
                0 <= i < inputs@.len() ==> {
                    &&& (#[trigger] r.items@[i]).spot == inputs@[i].spot
                    &&& r.items@[i].future == inputs@[i].future
                    &&& r.items@[i].result.entry_percent.val() == 0
                    &&& r.items@[i].result.exit_percent.val() == 0
                },
    {
        let mut rest = inputs;
        let mut items: Vec<Arbitrage> = Vec::new();
        let ghost orig = rest@;
        let ghost mut k: int = 0;
        while rest.len() > 0
            invariant
                0 <= k <= orig.len(),
                rest@ == orig.skip(k),
                items@.len() == k,
                forall|i: int|
                    0 <= i < k ==> {
                        &&& (#[trigger] items@[i]).spot == orig[i].spot
                        &&& items@[i].future == orig[i].future
                        &&& items@[i].result.entry_percent.val() == 0
                        &&& items@[i].result.exit_percent.val() == 0
                    },
            decreases rest@.len(),
        {
            let ghost rest0 = rest@;
            let a = rest.remove(0);
            proof {
                assert(rest0[0] == orig[k]);
                assert(rest@ =~= orig.skip(k + 1));
            }
            items.push(Arbitrage::new(a.spot, a.future));
            proof {
                k = k + 1;
            }
        }
        StartMonitor { items }
    }
}

/// What a worker is asked to do.
#[derive(Debug)]
pub enum Request {
    StartArbitrage(StartArbitrage),
    StartMonitor(StartMonitor),
}

/// The work a request starts: a monitor request starts monitoring, a trade
/// request nothing yet.
pub fn process_request(request: Request) -> (r: Option<StartMonitor>)
    ensures
        match request {
            Request::StartArbitrage(_) => r is None,
            Request::StartMonitor(m) => r == Some(m),
        },
{
    match request {
        Request::StartArbitrage(_) => None,
        Request::StartMonitor(m) => Some(m),
    }
}

/// A symbol names a future market when it carries a settlement suffix.
pub fn is_future_symbol(symbol: &str) -> (r: bool)
    ensures
        r == symbol@.contains(':'),
{
    let cs = chars_of(symbol);
    has_char(&cs, ':')
}

/// The first exchange called `name`, if any.
pub fn find_exchange(names: &Vec<String>, name: &String) -> (r: Option<usize>)
    ensures
        match r {
            Some(i) => i < names@.len() && names@[i as int]@ == name@ && forall|j: int|
                0 <= j < i ==> names@[j]@ != name@,
            None => forall|j: int| 0 <= j < names@.len() ==> names@[j]@ != name@,
        },
{
    let mut i: usize = 0;
    while i < names.len()
        invariant
            i <= names@.len(),
            forall|j: int| 0 <= j < i ==> names@[j]@ != name@,
        decreases names@.len() - i,
    {
        if names[i] == *name {
            return Some(i);
        }
        i = i + 1;
    }
    None
}

/// One book a monitor watches: the pair it belongs to, the exchanges of the
/// pair's two legs, and the symbol of the leg it watches.
#[derive(Debug)]
pub struct MonitorTask {
    pub item: usize,
    pub spot_exchange: usize,
    pub future_exchange: usize,
    pub symbol: String,
}

/// The unified symbols a pair watches: its spot market `BASE/QUOTE`, then its
/// future market `BASE/QUOTE:USDT`.
pub open spec fn task_symbol(a: Arbitrage, future: bool) -> Seq<char> {
    if future {
        joined(joined(a.future.base@, '/', a.future.quote@), ':', seq!['U', 'S', 'D', 'T'])
    } else {
        joined(a.spot.base@, '/', a.spot.quote@)
    }
}

/// The first exchange called `name`.
pub open spec fn first_named(names: Seq<String>, name: Seq<char>, i: int) -> bool {
    &&& 0 <= i < names.len()
    &&& names[i]@ == name
    &&& forall|j: int| 0 <= j < i ==> names[j]@ != name
}

/// Every pair's two exchanges are among `names`.
pub open spec fn exchanges_known(items: Seq<Arbitrage>, names: Seq<String>) -> bool {
    forall|k: int|
        0 <= k < items.len() ==> (exists|i: int| 0 <= i < names.len() && (#[trigger] names[i])@ == (
        #[trigger] items[k]).spot.exchange@) && (exists|i: int|
            0 <= i < names.len() && (#[trigger] names[i])@ == items[k].future.exchange@)
}

/// The books a monitor request watches: two per pair, its spot symbol then its
/// future symbol, each with the first exchange of each leg's name; `None` when
/// a leg names an exchange that is not there.
pub fn monitor_tasks(items: &Vec<Arbitrage>, names: &Vec<String>) -> (r: Option<Vec<MonitorTask>>)
    ensures
        r is Some <==> exchanges_known(items@, names@),
        r matches Some(ts) ==> {
            &&& ts@.len() == 2 * items@.len()
            &&& forall|t: int|
                0 <= t < ts@.len() ==> {
                    let a = items@[t / 2];
                    &&& (#[trigger] ts@[t]).item == t / 2
                    &&& first_named(names@, a.spot.exchange@, ts@[t].spot_exchange as int)
                    &&& first_named(names@, a.future.exchange@, ts@[t].future_exchange as int)
                    &&& ts@[t].symbol@ == task_symbol(a, t % 2 == 1)
                }
        },
{
    let mut tasks: Vec<MonitorTask> = Vec::new();
    let mut k: usize = 0;
    while k < items.len()
        invariant
            k <= items@.len(),
            tasks@.len() == 2 * k,
            exchanges_known(items@.take(k as int), names@),
            forall|t: int|
                0 <= t < tasks@.len() ==> {
                    let a = items@[t / 2];
                    &&& (#[trigger] tasks@[t]).item == t / 2
                    &&& first_named(names@, a.spot.exchange@, tasks@[t].spot_exchange as int)
                    &&& first_named(names@, a.future.exchange@, tasks@[t].future_exchange as int)
                    &&& tasks@[t].symbol@ == task_symbol(a, t % 2 == 1)
                },
        decreases items@.len() - k,
    {
        let a = &items[k];
        let spot = find_exchange(names, &a.spot.exchange);
        let future = find_exchange(names, &a.future.exchange);
        match (spot, future) {
            (Some(s), Some(f)) => {
                let ghost t0 = tasks@;
                let spot_sym = spot_symbol(a.spot.base.as_str(), a.spot.quote.as_str());
                let usdt = owned("USDT");
                proof {
                    reveal_strlit("USDT");
                }
                let future_sym = future_symbol(a.future.base.as_str(), a.future.quote.as_str(), usdt.as_str());
                tasks.push(MonitorTask { item: k, spot_exchange: s, future_exchange: f, symbol: spot_sym });
                tasks.push(MonitorTask { item: k, spot_exchange: s, future_exchange: f, symbol: future_sym });
                proof {
                    assert("USDT"@ =~= seq!['U', 'S', 'D', 'T']);
                    assert forall|t: int| 0 <= t < tasks@.len() implies {
                        let a = items@[t / 2];
                        &&& (#[trigger] tasks@[t]).item == t / 2
                        &&& first_named(names@, a.spot.exchange@, tasks@[t].spot_exchange as int)
                        &&& first_named(names@, a.future.exchange@, tasks@[t].future_exchange as int)
                        &&& tasks@[t].symbol@ == task_symbol(a, t % 2 == 1)
                    } by {
                        if t < 2 * k {
                            assert(tasks@[t] == t0[t]);
                        } else {
                            assert(t / 2 == k as int);
                        }
                    }
                    let tk = items@.take(k as int + 1);
                    assert forall|j: int| 0 <= j < tk.len() implies (exists|i: int|
                        0 <= i < names@.len() && (#[trigger] names@[i])@ == (#[trigger] tk[j]).spot.exchange@)
                        && (exists|i: int| 0 <= i < names@.len() && (#[trigger] names@[i])@ == tk[j].future.exchange@) by {
                        if j < k {
                            assert(tk[j] == items@.take(k as int)[j]);
                        } else {
                            assert(names@[s as int]@ == tk[j].spot.exchange@);
                            assert(names@[f as int]@ == tk[j].future.exchange@);
                        }
                    }
                }
                k = k + 1;
            },
            _ => {
                proof {
                    assert(!exchanges_known(items@, names@)) by {
                        let a = items@[k as int];
                        if exchanges_known(items@, names@) {
                            assert(exists|i: int| 0 <= i < names@.len() && (#[trigger] names@[i])@ == (
                            #[trigger] items@[k as int]).spot.exchange@);
                            assert(exists|i: int|
                                0 <= i < names@.len() && (#[trigger] names@[i])@ == items@[k as int].future.exchange@);
                        }
                    }
                }
                return None;
            },
        }
    }
    proof {
        assert(items@.take(items@.len() as int) =~= items@);
    }
    Some(tasks)
}

} // verus!
