//! Catching the orders pushed for a symbol: each caught order gets the next
//! nonce, and a reader asks for the orders after the last nonce it saw.
use crate::account::Order;
use crate::keyed::{insert_key, keyed_map, keys_unique, remove_key};
use vstd::prelude::*;

verus! {

/// The orders caught after some nonce, and the newest nonce.
pub struct CatchReturn {
    pub orders: Vec<Order>,
    pub nonce: usize,
}

/// Caught orders with their nonces, oldest first, and the newest nonce.
pub struct OrderCatchState {
    pub orders: Vec<(usize, Order)>,
    pub nonce: usize,
}

/// The orders recorded with a nonce above `last`, oldest first.
pub open spec fn caught_after(s: Seq<(usize, Order)>, last: usize) -> Seq<Order>
    decreases s.len(),
{
    if s.len() == 0 {
        Seq::empty()
    } else {
        let rest = caught_after(s.drop_last(), last);
        if s.last().0 > last {
            rest.push(s.last().1)
        } else {
            rest
        }
    }
}

impl OrderCatchState {
    /// The nonces are 1, 2, ... in order, the last being `nonce`.
    pub open spec fn wf(self) -> bool {
        &&& self.orders@.len() == self.nonce
        &&& forall|i: int| 0 <= i < self.orders@.len() ==> (#[trigger] self.orders@[i]).0 == i + 1
    }

    /// Nothing caught yet.
    pub fn new() -> (r: OrderCatchState)
        ensures
            r.wf(),
            r.nonce == 0,
    {
        OrderCatchState { orders: Vec::new(), nonce: 0 }
    }

    /// Records a caught order under the next nonce.
    pub fn record(&mut self, order: Order)
        requires
            old(self).wf(),
            old(self).nonce < usize::MAX,
        ensures
            final(self).wf(),
            final(self).nonce == old(self).nonce + 1,
            final(self).orders@ == old(self).orders@.push((final(self).nonce, order)),
    {
        let nonce = self.nonce + 1;
        self.nonce = nonce;
        self.orders.push((nonce, order));
    }

    /// The orders caught after `last_nonce`, oldest first.
    pub fn orders_after(&self, last_nonce: usize) -> (r: Vec<Order>)
        ensures
            r@ == caught_after(self.orders@, last_nonce),
    {
        let mut r: Vec<Order> = Vec::new();
        let mut i: usize = 0;
        while i < self.orders.len()
            invariant
                i <= self.orders@.len(),
                r@ == caught_after(self.orders@.take(i as int), last_nonce),
            decreases self.orders@.len() - i,
        {
            proof {
                let t = self.orders@.take(i as int + 1);
                assert(t.drop_last() =~= self.orders@.take(i as int));
                assert(t.last() == self.orders@[i as int]);
            }
            if self.orders[i].0 > last_nonce {
                r.push(self.orders[i].1.clone());
            }
            i = i + 1;
        }
        proof {
            assert(self.orders@.take(self.orders@.len() as int) =~= self.orders@);
        }
        r
    }

    /// What a reader that saw `last_nonce` gets now: the newer orders and the
    /// newest nonce when there are any; `None` when it must wait.
    pub fn next_ready(&self, last_nonce: usize) -> (r: Option<CatchReturn>)
        ensures
            last_nonce < self.nonce ==> (r matches Some(c) && c.nonce == self.nonce && c.orders@
                == caught_after(self.orders@, last_nonce)),
            last_nonce >= self.nonce ==> r is None,
    {
        if last_nonce < self.nonce {
            Some(CatchReturn { orders: self.orders_after(last_nonce), nonce: self.nonce })
        } else {
            None
        }
    }
}

/// A reader gets exactly the orders caught after the nonce it last saw:
/// with nonces 1..n, that is the orders from position `last` on, in order.
pub proof fn law_reader_gets_newer_orders(s: Seq<(usize, Order)>, last: usize)
    requires
        forall|i: int| 0 <= i < s.len() ==> (#[trigger] s[i]).0 == i + 1,
        last <= s.len(),
    ensures
        caught_after(s, last) == s.skip(last as int).map_values(|p: (usize, Order)| p.1),
    decreases s.len(),
{
    if s.len() > last {
        let t = s.drop_last();
        assert forall|i: int| 0 <= i < t.len() implies (#[trigger] t[i]).0 == i + 1 by {
            assert(t[i] == s[i]);
        }
        law_reader_gets_newer_orders(t, last);
        assert(s.last() == s[s.len() - 1]);
        assert(s.skip(last as int).map_values(|p: (usize, Order)| p.1) =~= t.skip(last as int).map_values(
            |p: (usize, Order)| p.1,
        ).push(s.last().1));
    } else {
        assert(s.skip(last as int).map_values(|p: (usize, Order)| p.1) =~= Seq::<Order>::empty());
        lemma_nothing_after(s, last);
    }
}

proof fn lemma_nothing_after(s: Seq<(usize, Order)>, last: usize)
    requires
        forall|i: int| 0 <= i < s.len() ==> (#[trigger] s[i]).0 == i + 1,
        s.len() <= last,
    ensures
        caught_after(s, last) == Seq::<Order>::empty(),
    decreases s.len(),
{
    if s.len() > 0 {
        let t = s.drop_last();
        assert forall|i: int| 0 <= i < t.len() implies (#[trigger] t[i]).0 == i + 1 by {
            assert(t[i] == s[i]);
        }
        lemma_nothing_after(t, last);
        assert(s.last() == s[s.len() - 1]);
    }
}

/// Removes the first subscription with this id (when a catcher goes away).
pub fn remove_subscription<S>(subscriptions: &mut Vec<(u32, S)>, id: u32)
    ensures
        (exists|i: int| 0 <= i < old(subscriptions)@.len() && (#[trigger] old(subscriptions)@[i]).0 == id)
            ==> exists|i: int|
            0 <= i < old(subscriptions)@.len() && old(subscriptions)@[i].0 == id && (forall|j: int|
                0 <= j < i ==> (#[trigger] old(subscriptions)@[j]).0 != id) && final(subscriptions)@
                == old(subscriptions)@.remove(i),
        !(exists|i: int| 0 <= i < old(subscriptions)@.len() && (#[trigger] old(subscriptions)@[i]).0 == id)
            ==> final(subscriptions)@ == old(subscriptions)@,
{
    let mut i: usize = 0;
    while i < subscriptions.len()
        invariant
            subscriptions@ == old(subscriptions)@,
            i <= subscriptions@.len(),
            forall|j: int| 0 <= j < i ==> (#[trigger] subscriptions@[j]).0 != id,
        decreases subscriptions@.len() - i,
    {
        if subscriptions[i].0 == id {
            subscriptions.remove(i);
            return ;
        }
        i = i + 1;
    }
}


/// The id of the next catcher: one more than the last; `None` when the ids
/// are used up.
pub fn next_subscription_id(last: u32) -> (r: Option<u32>)
    ensures
        last < u32::MAX ==> r == Some((last + 1) as u32),
        last == u32::MAX ==> r is None,
{
    last.checked_add(1)
}

/// The subscriptions of `symbol` once `(id, sub)` is added after those already
/// there.
pub open spec fn with_subscription<S>(
    m: Map<Seq<char>, Vec<(u32, S)>>,
    symbol: Seq<char>,
    id: u32,
    sub: S,
) -> Seq<(u32, S)> {
    if m.contains_key(symbol) {
        m[symbol]@.push((id, sub))
    } else {
        seq![(id, sub)]
    }
}

/// Adds subscription `(id, sub)` to those of `symbol`, creating its list when
/// it has none.
pub fn add_subscription<S>(pending: &mut Vec<(String, Vec<(u32, S)>)>, symbol: String, id: u32, sub: S)
    requires
        keys_unique(old(pending)@),
    ensures
        keys_unique(final(pending)@),
        keyed_map(final(pending)@).dom() == keyed_map(old(pending)@).dom().insert(symbol@),
        keyed_map(final(pending)@)[symbol@]@ == with_subscription(keyed_map(old(pending)@), symbol@, id, sub),
        forall|k: Seq<char>|
            k != symbol@ && #[trigger] keyed_map(old(pending)@).contains_key(k) ==> keyed_map(final(pending)@)[k]
                == keyed_map(old(pending)@)[k],
{
    let existing = remove_key(pending, &symbol);
    let mut subs = match existing {
        Some(v) => v,
        None => Vec::new(),
    };
    subs.push((id, sub));
    proof {
        assert(subs@ =~= with_subscription(keyed_map(old(pending)@), symbol@, id, sub));
    }
    insert_key(pending, symbol, subs);
    proof {
        assert(keyed_map(pending@).dom() =~= keyed_map(old(pending)@).dom().insert(symbol@));
    }
}

} // verus!
