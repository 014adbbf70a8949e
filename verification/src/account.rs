//! Account bookkeeping: the quote balance that orders move, a temporary copy
//! for simulated orders, and a short memory of seen orders so that each is
//! booked once.
use crate::decimal::{
    checked_add, checked_mul, checked_sub, decimal_checked_add, decimal_checked_mul,
    decimal_checked_sub, Dec,
};
use crate::text::{ascii_lower, chars_of, has_char, is_ascii_text, lower_case, to_lowercase};
use vstd::prelude::*;

verus! {

/// An exchange order.
#[derive(Debug)]
pub struct Order {
    pub id: String,
    pub symbol: String,
    pub side: String,
    pub amount: Dec,
    pub price: Dec,
    pub status: String,
    pub timestamp: u64,
    pub filled: Dec,
    pub remaning: Dec,
}

impl Clone for Order {
    fn clone(&self) -> (r: Order)
        ensures
            r == *self,
    {
        Order {
            id: self.id.clone(),
            symbol: self.symbol.clone(),
            side: self.side.clone(),
            amount: self.amount,
            price: self.price,
            status: self.status.clone(),
            timestamp: self.timestamp,
            filled: self.filled,
            remaning: self.remaning,
        }
    }
}

/// The part of an order that moves a balance.
#[derive(Debug)]
pub struct OrderRequest {
    pub symbol: String,
    pub side: String,
    pub amount: Dec,
    pub price: Dec,
}

/// Balances per asset, for the spot and the futures account; no asset occurs
/// twice in one account.
#[derive(Debug)]
pub struct Balance {
    pub spot: Vec<(String, Dec)>,
    pub future: Vec<(String, Dec)>,
}

impl Balance {
    pub open spec fn spot_view(self) -> Seq<(Seq<char>, Dec)> {
        account_view(self.spot@)
    }

    pub open spec fn future_view(self) -> Seq<(Seq<char>, Dec)> {
        account_view(self.future@)
    }

    /// No asset occurs twice in either account.
    pub open spec fn wf(self) -> bool {
        assets_unique(self.spot_view()) && assets_unique(self.future_view())
    }

    /// Both accounts empty.
    pub fn new() -> (r: Balance)
        ensures
            r.wf(),
            r.spot_view() == Seq::<(Seq<char>, Dec)>::empty(),
            r.future_view() == Seq::<(Seq<char>, Dec)>::empty(),
    {
        let b = Balance { spot: Vec::new(), future: Vec::new() };
        assert(b.spot_view() =~= Seq::<(Seq<char>, Dec)>::empty());
        assert(b.future_view() =~= Seq::<(Seq<char>, Dec)>::empty());
        b
    }
}

/// An order remembered with the time (in nanoseconds of a monotonic clock) at
/// which it was booked.
#[derive(Debug)]
pub struct TimedOrder {
    pub order: Order,
    pub inserted_at: u128,
}

/// How long an order is remembered: 30 seconds.
pub const ORDER_MEMORY_NANOS: u128 = 30_000_000_000;

/// The asset that orders move.
pub open spec fn quote_asset() -> Seq<char> {
    "USDT"@
}

/// An account as (asset name, balance) pairs.
pub open spec fn account_view(s: Seq<(String, Dec)>) -> Seq<(Seq<char>, Dec)> {
    s.map_values(|p: (String, Dec)| (p.0@, p.1))
}

/// Position of asset `k` in an account, if present.
pub open spec fn asset_index(s: Seq<(Seq<char>, Dec)>, k: Seq<char>) -> Option<int> {
    if exists|i: int| 0 <= i < s.len() && (#[trigger] s[i]).0 == k {
        Some(choose|i: int| 0 <= i < s.len() && (#[trigger] s[i]).0 == k)
    } else {
        None
    }
}

/// No asset occurs twice.
pub open spec fn assets_unique(s: Seq<(Seq<char>, Dec)>) -> bool {
    forall|i: int, j: int| 0 <= i < j < s.len() ==> (#[trigger] s[i]).0 != (#[trigger] s[j]).0
}

/// The balance of asset `k`, zero when absent.
pub open spec fn balance_of(s: Seq<(Seq<char>, Dec)>, k: Seq<char>) -> Dec {
    match asset_index(s, k) {
        Some(i) => s[i].1,
        None => Dec::parts(0, 0),
    }
}

/// The account with asset `k` set to `v` (appended when absent).
pub open spec fn set_balance(s: Seq<(Seq<char>, Dec)>, k: Seq<char>, v: Dec) -> Seq<(Seq<char>, Dec)> {
    match asset_index(s, k) {
        Some(i) => s.update(i, (k, v)),
        None => s.push((k, v)),
    }
}

/// The direction in which an order moves the quote balance: `Some(true)` adds
/// its value, `Some(false)` takes it, `None` leaves it (unknown side). Futures
/// (symbols with `:`) pay on a sell (a short opens) and gain on a buy (the
/// short closes); spot pays on a buy and gains on a sell.
pub open spec fn order_direction(is_future: bool, side: Seq<char>) -> Option<bool> {
    let s = lower_case(side);
    if is_future {
        if s == "sell"@ {
            Some(false)
        } else if s == "buy"@ {
            Some(true)
        } else {
            None
        }
    } else {
        if s == "buy"@ {
            Some(false)
        } else if s == "sell"@ {
            Some(true)
        } else {
            None
        }
    }
}

/// One account after an order: the quote balance moved by `amount * price`;
/// `None` where a decimal operation overflows.
pub open spec fn apply_to_account(s: Seq<(Seq<char>, Dec)>, order: OrderRequest) -> Option<
    Seq<(Seq<char>, Dec)>,
> {
    let key = quote_asset();
    match decimal_checked_mul(order.amount, order.price) {
        None => None,
        Some(value) => {
            let current = balance_of(s, key);
            match order_direction(order.symbol@.contains(':'), order.side@) {
                None => Some(set_balance(s, key, current)),
                Some(gain) => match if gain {
                    decimal_checked_add(current, value)
                } else {
                    decimal_checked_sub(current, value)
                } {
                    None => None,
                    Some(v) => Some(set_balance(s, key, v)),
                },
            }
        },
    }
}

fn find_asset(s: &Vec<(String, Dec)>, key: &String) -> (r: Option<usize>)
    requires
        assets_unique(account_view(s@)),
    ensures
        r matches Some(i) ==> i < s@.len() && asset_index(account_view(s@), key@) == Some(i as int),
        r is None ==> asset_index(account_view(s@), key@) is None,
{
    let ghost v = account_view(s@);
    let mut i: usize = 0;
    while i < s.len()
        invariant
            v == account_view(s@),
            assets_unique(v),
            i <= s@.len(),
            forall|j: int| 0 <= j < i ==> (#[trigger] v[j]).0 != key@,
        decreases s@.len() - i,
    {
        if s[i].0 == *key {
            proof {
                assert(v[i as int].0 == key@);
                let c = choose|j: int| 0 <= j < v.len() && (#[trigger] v[j]).0 == key@;
                if c != i {
                    if c < i {
                        assert(v[c].0 != key@);
                    } else {
                        assert(v[i as int].0 != v[c].0);
                    }
                }
            }
            return Some(i);
        }
        i = i + 1;
    }
    proof {
        assert forall|j: int| 0 <= j < v.len() implies (#[trigger] v[j]).0 != key@ by {
        }
    }
    None
}

fn set_asset(s: &mut Vec<(String, Dec)>, key: String, v: Dec)
    requires
        assets_unique(account_view(old(s)@)),
    ensures
        assets_unique(account_view(final(s)@)),
        account_view(final(s)@) == set_balance(account_view(old(s)@), key@, v),
{
    let ghost v0 = account_view(s@);
    match find_asset(s, &key) {
        Some(i) => {
            let k = s[i].0.clone();
            s.set(i, (k, v));
            proof {
                let v1 = account_view(s@);
                assert(v1 =~= v0.update(i as int, (key@, v)));
            }
        },
        None => {
            s.push((key, v));
            proof {
                let v1 = account_view(s@);
                assert(v1 =~= v0.push((key@, v)));
                assert forall|a: int, b: int| 0 <= a < b < v1.len() implies (#[trigger] v1[a]).0 != (
                #[trigger] v1[b]).0 by {
                    if b == v1.len() - 1 {
                        assert(v1[a] == v0[a]);
                        if v0[a].0 == key@ {
                            assert(exists|j: int| 0 <= j < v0.len() && (#[trigger] v0[j]).0 == key@);
                        }
                    } else {
                        assert(v1[a] == v0[a] && v1[b] == v0[b]);
                    }
                }
            }
        },
    }
}

/// Moves the quote balance of the right account (futures for symbols with
/// `:`, else spot) by the order's value. `None` where a decimal operation
/// overflows; then the balance is left as it was.
pub fn apply_order(balance: &mut Balance, order: &OrderRequest) -> (r: Option<()>)
    requires
        old(balance).wf(),
    ensures
        final(balance).wf(),
        is_ascii_text(order.side@) ==> lower_case(order.side@) == ascii_lower(order.side@),
        ({
            let is_future = order.symbol@.contains(':');
            let before = if is_future { old(balance).future_view() } else { old(balance).spot_view() };
            let after = if is_future { final(balance).future_view() } else { final(balance).spot_view() };
            let other_before = if is_future { old(balance).spot_view() } else { old(balance).future_view() };
            let other_after = if is_future { final(balance).spot_view() } else { final(balance).future_view() };
            &&& other_after == other_before
            &&& match apply_to_account(before, *order) {
                None => r is None && after == before,
                Some(s) => r is Some && after == s,
            }
        }),
{
    let side = to_lowercase(order.side.as_str());
    let cs = chars_of(order.symbol.as_str());
    let is_future = has_char(&cs, ':');
    let key = crate::text::owned("USDT");
    let value = match checked_mul(&order.amount, &order.price) {
        Some(v) => v,
        None => return None,
    };
    let account = if is_future {
        &balance.future
    } else {
        &balance.spot
    };
    let current = match find_asset(account, &key) {
        Some(i) => account[i].1,
        None => Dec::zero(),
    };
    let sell = crate::text::owned("sell");
    let buy = crate::text::owned("buy");
    let gain: Option<bool> = if is_future {
        if side == sell {
            Some(false)
        } else if side == buy {
            Some(true)
        } else {
            None
        }
    } else {
        if side == buy {
            Some(false)
        } else if side == sell {
            Some(true)
        } else {
            None
        }
    };
    let new_value = match gain {
        None => current,
        Some(true) => match checked_add(&current, &value) {
            Some(v) => v,
            None => return None,
        },
        Some(false) => match checked_sub(&current, &value) {
            Some(v) => v,
            None => return None,
        },
    };
    if is_future {
        set_asset(&mut balance.future, key, new_value);
    } else {
        set_asset(&mut balance.spot, key, new_value);
    }
    Some(())
}

fn copy_account(s: &Vec<(String, Dec)>) -> (r: Vec<(String, Dec)>)
    ensures
        r@ == s@,
{
    let mut r: Vec<(String, Dec)> = Vec::new();
    let mut i: usize = 0;
    while i < s.len()
        invariant
            i <= s@.len(),
            r@ =~= s@.take(i as int),
        decreases s@.len() - i,
    {
        let k = s[i].0.clone();
        r.push((k, s[i].1));
        i = i + 1;
    }
    assert(s@.take(s@.len() as int) =~= s@);
    r
}

impl Clone for Balance {
    fn clone(&self) -> (r: Balance)
        ensures
            r.spot@ == self.spot@,
            r.future@ == self.future@,
    {
        Balance { spot: copy_account(&self.spot), future: copy_account(&self.future) }
    }
}

/// More than the memory span has passed since `t` was booked (a clock that
/// went back counts as no time).
pub open spec fn expired(t: TimedOrder, now: u128) -> bool {
    now > t.inserted_at && now - t.inserted_at > ORDER_MEMORY_NANOS
}

fn is_expired(t: &TimedOrder, now: u128) -> (r: bool)
    ensures
        r == expired(*t, now),
{
    now > t.inserted_at && now - t.inserted_at > ORDER_MEMORY_NANOS
}

/// The remembered orders without the expired ones at the front.
pub open spec fn prune(s: Seq<TimedOrder>, now: u128) -> Seq<TimedOrder>
    decreases s.len(),
{
    if s.len() > 0 && expired(s[0], now) {
        prune(s.drop_first(), now)
    } else {
        s
    }
}

/// An order with this id is remembered.
pub open spec fn seen(s: Seq<TimedOrder>, id: Seq<char>) -> bool {
    exists|i: int| 0 <= i < s.len() && (#[trigger] s[i]).order.id@ == id
}

/// No order id is remembered twice.
pub open spec fn ids_unique(s: Seq<TimedOrder>) -> bool {
    forall|i: int, j: int| 0 <= i < j < s.len() ==> (#[trigger] s[i]).order.id@ != (#[trigger] s[j]).order.id@
}

proof fn lemma_prune_suffix(s: Seq<TimedOrder>, now: u128)
    ensures
        exists|k: int| 0 <= k <= s.len() && prune(s, now) == s.skip(k),
    decreases s.len(),
{
    if s.len() > 0 && expired(s[0], now) {
        lemma_prune_suffix(s.drop_first(), now);
        let k = choose|k: int| 0 <= k <= s.drop_first().len() && prune(s.drop_first(), now) == s.drop_first().skip(k);
        assert(s.drop_first().skip(k) =~= s.skip(k + 1));
    } else {
        assert(s.skip(0) =~= s);
    }
}

proof fn lemma_unique_suffix(s: Seq<TimedOrder>, k: int)
    requires
        ids_unique(s),
        0 <= k <= s.len(),
    ensures
        ids_unique(s.skip(k)),
{
    let t = s.skip(k);
    assert forall|i: int, j: int| 0 <= i < j < t.len() implies (#[trigger] t[i]).order.id@ != (
    #[trigger] t[j]).order.id@ by {
        assert(t[i] == s[i + k] && t[j] == s[j + k]);
    }
}

/// The state behind an account: the booked balance, a temporary balance for
/// simulated orders, and the recently booked orders, oldest first.
#[derive(Debug)]
pub struct SharedState {
    pub actual_balance: Balance,
    pub temporary_balance: Balance,
    pub orders: Vec<TimedOrder>,
}

impl SharedState {
    pub open spec fn wf(self) -> bool {
        &&& self.actual_balance.wf()
        &&& self.temporary_balance.wf()
        &&& ids_unique(self.orders@)
    }

    /// Empty balances and no remembered orders.
    pub fn new() -> (r: SharedState)
        ensures
            r.wf(),
            r.orders@.len() == 0,
    {
        SharedState { actual_balance: Balance::new(), temporary_balance: Balance::new(), orders: Vec::new() }
    }

    /// Books an order seen at time `now`: first forgets the orders booked more
    /// than 30 seconds ago (from the oldest on); an order whose id is still
    /// remembered is ignored; any other is remembered and moves the booked
    /// balance. `None` where the balance arithmetic overflows.
    pub fn insert_order(&mut self, order: Order, now: u128) -> (r: Option<()>)
        requires
            old(self).wf(),
        ensures
            final(self).wf(),
            final(self).temporary_balance == old(self).temporary_balance,
            ({
                let pruned = prune(old(self).orders@, now);
                if seen(pruned, order.id@) {
                    &&& final(self).orders@ == pruned
                    &&& final(self).actual_balance == old(self).actual_balance
                    &&& r is Some
                } else {
                    &&& final(self).orders@ == pruned.push(TimedOrder { order, inserted_at: now })
                    &&& {
                        let is_future = order.symbol@.contains(':');
                        let req = OrderRequest {
                            symbol: order.symbol,
                            side: order.side,
                            amount: order.amount,
                            price: order.price,
                        };
                        let before = if is_future {
                            old(self).actual_balance.future_view()
                        } else {
                            old(self).actual_balance.spot_view()
                        };
                        let after = if is_future {
                            final(self).actual_balance.future_view()
                        } else {
                            final(self).actual_balance.spot_view()
                        };
                        match apply_to_account(before, req) {
                            None => r is None && after == before,
                            Some(a) => r is Some && after == a,
                        }
                    }
                }
            }),
    {
        let ghost o0 = self.orders@;
        proof {
            lemma_prune_suffix(o0, now);
            assert(o0.skip(0) =~= o0);
        }
        while self.orders.len() > 0 && is_expired(&self.orders[0], now)
            invariant
                old(self).wf(),
                o0 == old(self).orders@,
                self.actual_balance == old(self).actual_balance,
                self.temporary_balance == old(self).temporary_balance,
                prune(self.orders@, now) == prune(o0, now),
                exists|k: int| 0 <= k <= o0.len() && self.orders@ == o0.skip(k),
            decreases self.orders@.len(),
        {
            let ghost before = self.orders@;
            self.orders.remove(0);
            proof {
                assert(self.orders@ =~= before.drop_first());
                let k = choose|k: int| 0 <= k <= o0.len() && before == o0.skip(k);
                assert(o0.skip(k).drop_first() =~= o0.skip(k + 1));
            }
        }
        proof {
            let k = choose|k: int| 0 <= k <= o0.len() && self.orders@ == o0.skip(k);
            lemma_unique_suffix(o0, k);
            assert(prune(self.orders@, now) == self.orders@);
        }
        let mut i: usize = 0;
        while i < self.orders.len()
            invariant
                old(self).wf(),
                self.actual_balance == old(self).actual_balance,
                self.temporary_balance == old(self).temporary_balance,
                ids_unique(self.orders@),
                self.orders@ == prune(old(self).orders@, now),
                i <= self.orders@.len(),
                forall|j: int| 0 <= j < i ==> (#[trigger] self.orders@[j]).order.id@ != order.id@,
            decreases self.orders@.len() - i,
        {
            if self.orders[i].order.id == order.id {
                return Some(());
            }
            i = i + 1;
        }
        let req = OrderRequest {
            symbol: order.symbol.clone(),
            side: order.side.clone(),
            amount: order.amount,
            price: order.price,
        };
        let ghost pruned = self.orders@;
        self.orders.push(TimedOrder { order, inserted_at: now });
        proof {
            let s1 = self.orders@;
            assert forall|a: int, b: int| 0 <= a < b < s1.len() implies (#[trigger] s1[a]).order.id@ != (
            #[trigger] s1[b]).order.id@ by {
                if b == s1.len() - 1 {
                    assert(s1[a] == pruned[a]);
                } else {
                    assert(s1[a] == pruned[a] && s1[b] == pruned[b]);
                }
            }
        }
        apply_order(&mut self.actual_balance, &req)
    }

    /// Moves the temporary balance by an order that is only being considered.
    pub fn simulate_order(&mut self, order: &OrderRequest) -> (r: Option<()>)
        requires
            old(self).wf(),
        ensures
            final(self).wf(),
            final(self).actual_balance == old(self).actual_balance,
            final(self).orders == old(self).orders,
            ({
                let is_future = order.symbol@.contains(':');
                let before = if is_future {
                    old(self).temporary_balance.future_view()
                } else {
                    old(self).temporary_balance.spot_view()
                };
                let after = if is_future {
                    final(self).temporary_balance.future_view()
                } else {
                    final(self).temporary_balance.spot_view()
                };
                match apply_to_account(before, *order) {
                    None => r is None && after == before,
                    Some(a) => r is Some && after == a,
                }
            }),
    {
        apply_order(&mut self.temporary_balance, order)
    }

    /// The booked balance.
    pub fn get_actual_balance(&self) -> (r: Balance)
        ensures
            r.spot@ == self.actual_balance.spot@,
            r.future@ == self.actual_balance.future@,
    {
        self.actual_balance.clone()
    }

    /// The temporary balance.
    pub fn get_temporary_balance(&self) -> (r: Balance)
        ensures
            r.spot@ == self.temporary_balance.spot@,
            r.future@ == self.temporary_balance.future@,
    {
        self.temporary_balance.clone()
    }

    /// The remembered orders, oldest first.
    pub fn get_orders(&self) -> (r: Vec<Order>)
        ensures
            r@.len() == self.orders@.len(),
            forall|i: int| 0 <= i < r@.len() ==> r@[i] == (#[trigger] self.orders@[i]).order,
    {
        let mut r: Vec<Order> = Vec::new();
        let mut i: usize = 0;
        while i < self.orders.len()
            invariant
                i <= self.orders@.len(),
                r@.len() == i,
                forall|j: int| 0 <= j < i ==> r@[j] == (#[trigger] self.orders@[j]).order,
            decreases self.orders@.len() - i,
        {
            r.push(self.orders[i].order.clone());
            i = i + 1;
        }
        r
    }

    /// Makes the temporary balance a copy of the booked one.
    pub fn reset_temporary_balance(&mut self)
        requires
            old(self).wf(),
        ensures
            final(self).wf(),
            final(self).temporary_balance.spot@ == old(self).actual_balance.spot@,
            final(self).temporary_balance.future@ == old(self).actual_balance.future@,
            final(self).actual_balance == old(self).actual_balance,
            final(self).orders == old(self).orders,
    {
        self.temporary_balance = self.actual_balance.clone();
    }
}


proof fn lemma_prune_keeps_fresh_last(s: Seq<TimedOrder>, now: u128)
    requires
        s.len() > 0,
        !expired(s.last(), now),
    ensures
        prune(s, now).len() > 0,
        prune(s, now).last() == s.last(),
    decreases s.len(),
{
    if s.len() > 1 && expired(s[0], now) {
        let t = s.drop_first();
        assert(t.last() == s.last());
        lemma_prune_keeps_fresh_last(t, now);
    }
}

/// An order that was booked is remembered for the next 30 seconds: a booking
/// of the same id at any time up to then finds it and is ignored.
pub proof fn law_order_booked_once_per_window(s: Seq<TimedOrder>, order: Order, t1: u128, t2: u128)
    requires
        !seen(prune(s, t1), order.id@),
        t2 <= t1 + ORDER_MEMORY_NANOS,
    ensures
        seen(prune(prune(s, t1).push(TimedOrder { order, inserted_at: t1 }), t2), order.id@),
{
    let s1 = prune(s, t1).push(TimedOrder { order, inserted_at: t1 });
    lemma_prune_keeps_fresh_last(s1, t2);
    let p = prune(s1, t2);
    assert(p[p.len() - 1].order.id@ == order.id@);
}

} // verus!
