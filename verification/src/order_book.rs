//! Order books: bids best (highest) first, asks best (lowest) first, one entry
//! per price value, updated by depth diffs.
use crate::decimal::{eq, lt, Dec};
use vstd::prelude::*;

verus! {

/// `a` comes strictly before `b` on a side sorted ascending (`desc == false`)
/// or descending (`desc == true`).
pub open spec fn key_before(a: Dec, b: Dec, desc: bool) -> bool {
    if desc {
        a.val() > b.val()
    } else {
        a.val() < b.val()
    }
}

/// The prices of a side are strictly ordered (so no price value occurs twice).
pub open spec fn side_sorted(s: Seq<(Dec, Dec)>, desc: bool) -> bool {
    forall|i: int, j: int| 0 <= i < j < s.len() ==> key_before(#[trigger] s[i].0, #[trigger] s[j].0, desc)
}

/// Some level of the side has price value `k`.
pub open spec fn side_has(s: Seq<(Dec, Dec)>, k: int) -> bool {
    exists|i: int| 0 <= i < s.len() && #[trigger] s[i].0.val() == k
}

/// The side as a map from price value to its level (stored price, quantity).
pub open spec fn side_view(s: Seq<(Dec, Dec)>) -> Map<int, (Dec, Dec)> {
    Map::new(
        |k: int| side_has(s, k),
        |k: int| s[choose|i: int| 0 <= i < s.len() && #[trigger] s[i].0.val() == k],
    )
}

/// One diff entry applied to a side: quantity zero removes the price; otherwise
/// the quantity is set, keeping the stored price when the value is present.
pub open spec fn side_apply(m: Map<int, (Dec, Dec)>, price: Dec, qty: Dec) -> Map<int, (Dec, Dec)> {
    if qty.val() == 0 {
        m.remove(price.val())
    } else if m.contains_key(price.val()) {
        m.insert(price.val(), (m[price.val()].0, qty))
    } else {
        m.insert(price.val(), (price, qty))
    }
}

/// One snapshot level collected into a side: the level replaces any level
/// of the same price value, whatever its quantity.
pub open spec fn side_collect(m: Map<int, (Dec, Dec)>, price: Dec, qty: Dec) -> Map<int, (Dec, Dec)> {
    m.insert(price.val(), (price, qty))
}

/// Snapshot levels collected in order.
pub open spec fn side_collect_all(es: Seq<(Dec, Dec)>) -> Map<int, (Dec, Dec)>
    decreases es.len(),
{
    if es.len() == 0 {
        Map::empty()
    } else {
        side_collect(side_collect_all(es.drop_last()), es.last().0, es.last().1)
    }
}

/// The diff entries applied in order.
pub open spec fn side_apply_all(m: Map<int, (Dec, Dec)>, es: Seq<(Dec, Dec)>) -> Map<int, (Dec, Dec)>
    decreases es.len(),
{
    if es.len() == 0 {
        m
    } else {
        side_apply(side_apply_all(m, es.drop_last()), es.last().0, es.last().1)
    }
}

/// Applying diff entries leaves a price value that no entry mentions as it was.
pub proof fn law_untouched_prices_unchanged(m: Map<int, (Dec, Dec)>, es: Seq<(Dec, Dec)>, k: int)
    requires
        forall|i: int| 0 <= i < es.len() ==> (#[trigger] es[i]).0.val() != k,
    ensures
        side_apply_all(m, es).contains_key(k) == m.contains_key(k),
        m.contains_key(k) ==> side_apply_all(m, es)[k] == m[k],
    decreases es.len(),
{
    if es.len() > 0 {
        assert(es.last() == es[es.len() - 1]);
        let es2 = es.drop_last();
        assert forall|i: int| 0 <= i < es2.len() implies (#[trigger] es2[i]).0.val() != k by {
            assert(es2[i] == es[i]);
        }
        law_untouched_prices_unchanged(m, es2, k);
    }
}

/// After applying diff entries, a price value carries the quantity of the last
/// entry that mentions it, and is gone when that quantity is zero.
pub proof fn law_last_entry_wins(m: Map<int, (Dec, Dec)>, es: Seq<(Dec, Dec)>, i: int)
    requires
        0 <= i < es.len(),
        forall|j: int| i < j < es.len() ==> (#[trigger] es[j]).0.val() != es[i].0.val(),
    ensures
        es[i].1.val() == 0 ==> !side_apply_all(m, es).contains_key(es[i].0.val()),
        es[i].1.val() != 0 ==> side_apply_all(m, es).contains_key(es[i].0.val()) && side_apply_all(
            m,
            es,
        )[es[i].0.val()].1 == es[i].1,
    decreases es.len(),
{
    let k = es[i].0.val();
    let es2 = es.drop_last();
    if i == es.len() - 1 {
        assert(es.last() == es[i]);
    } else {
        assert(es.last() == es[es.len() - 1]);
        assert(es2[i] == es[i]);
        assert forall|j: int| i < j < es2.len() implies (#[trigger] es2[j]).0.val() != es2[i].0.val() by {
            assert(es2[j] == es[j]);
        }
        law_last_entry_wins(m, es2, i);
    }
}

/// A diff of an order book.
#[derive(Clone, Debug)]
pub struct OrderBookUpdate {
    pub bids: Vec<(Dec, Dec)>,
    pub asks: Vec<(Dec, Dec)>,
    pub first_update_id: u64,
    pub last_update_id: u64,
    /// The diff replaces the whole book.
    pub full: bool,
}

/// What an order book holds: each side as a map from price value to level.
pub struct BookView {
    pub bids: Map<int, (Dec, Dec)>,
    pub asks: Map<int, (Dec, Dec)>,
    pub id: u64,
}

/// A book after one diff (see `OrderBook::apply_update`).
pub open spec fn book_apply(v: BookView, update: OrderBookUpdate) -> BookView {
    BookView {
        bids: side_apply_all(if update.full { Map::empty() } else { v.bids }, update.bids@),
        asks: side_apply_all(if update.full { Map::empty() } else { v.asks }, update.asks@),
        id: next_update_id(v.id, update),
    }
}

/// A full diff replaces the book: what the book held before it does not
/// matter, only its id moves on from the old one.
pub proof fn law_full_update_replaces_the_book(v1: BookView, v2: BookView, update: OrderBookUpdate)
    requires
        update.full,
    ensures
        book_apply(v1, update).bids == book_apply(v2, update).bids,
        book_apply(v1, update).asks == book_apply(v2, update).asks,
{
}

/// The level a side holds at price value `k`, if any.
spec fn level_at(m: Map<int, (Dec, Dec)>, k: int) -> Option<(Dec, Dec)> {
    if m.contains_key(k) {
        Some(m[k])
    } else {
        None
    }
}

/// One diff entry applied to the level held at price value `k`.
spec fn level_step(o: Option<(Dec, Dec)>, e: (Dec, Dec), k: int) -> Option<(Dec, Dec)> {
    if e.0.val() != k {
        o
    } else if e.1.val() == 0 {
        None
    } else {
        match o {
            Some(l) => Some((l.0, e.1)),
            None => Some((e.0, e.1)),
        }
    }
}

/// The diff entries applied in order to the level held at price value `k`.
spec fn level_after(o: Option<(Dec, Dec)>, es: Seq<(Dec, Dec)>, k: int) -> Option<(Dec, Dec)>
    decreases es.len(),
{
    if es.len() == 0 {
        o
    } else {
        level_step(level_after(o, es.drop_last(), k), es.last(), k)
    }
}

/// Each price value of a side moves on its own under a diff.
proof fn lemma_level_after(m: Map<int, (Dec, Dec)>, es: Seq<(Dec, Dec)>, k: int)
    ensures
        level_at(side_apply_all(m, es), k) == level_after(level_at(m, k), es, k),
    decreases es.len(),
{
    if es.len() > 0 {
        lemma_level_after(m, es.drop_last(), k);
    }
}

/// A level that a diff leaves absent from one start, but present from
/// another, was never touched by the diff.
proof fn lemma_level_untouched(x: Option<(Dec, Dec)>, y: Option<(Dec, Dec)>, es: Seq<(Dec, Dec)>, k: int)
    requires
        level_after(x, es, k) is None,
        level_after(y, es, k) is Some,
    ensures
        level_after(y, es, k) == y,
    decreases es.len(),
{
    if es.len() > 0 {
        let e = es.last();
        if e.0.val() != k {
            lemma_level_untouched(x, y, es.drop_last(), k);
        }
    }
}

/// Starting from a level with the price that a diff ends on from another
/// start, the diff ends on that price again.
proof fn lemma_level_price(x: Option<(Dec, Dec)>, y: Option<(Dec, Dec)>, es: Seq<(Dec, Dec)>, k: int)
    requires
        level_after(x, es, k) is Some,
        y is Some,
        y.unwrap().0 == level_after(x, es, k).unwrap().0,
    ensures
        level_after(y, es, k) is Some,
        level_after(y, es, k).unwrap().0 == level_after(x, es, k).unwrap().0,
    decreases es.len(),
{
    if es.len() > 0 {
        let e = es.last();
        let es2 = es.drop_last();
        if e.0.val() != k {
            lemma_level_price(x, y, es2, k);
        } else if level_after(x, es2, k) is Some {
            lemma_level_price(x, y, es2, k);
        } else if level_after(y, es2, k) is Some {
            lemma_level_untouched(x, y, es2, k);
        }
    }
}

/// A diff applied twice to one level gives what it gives once.
proof fn lemma_level_twice(o: Option<(Dec, Dec)>, es: Seq<(Dec, Dec)>, k: int)
    ensures
        level_after(level_after(o, es, k), es, k) == level_after(o, es, k),
    decreases es.len(),
{
    if es.len() > 0 {
        let e = es.last();
        let es2 = es.drop_last();
        let p = level_after(o, es2, k);
        let q = level_after(o, es, k);
        if e.0.val() != k {
            lemma_level_twice(o, es2, k);
        } else if e.1.val() != 0 {
            if p is Some {
                lemma_level_price(o, q, es2, k);
            } else if level_after(q, es2, k) is Some {
                lemma_level_untouched(o, q, es2, k);
            }
        }
    }
}

/// Applying the same diff entries twice to a side gives the side that
/// applying them once gives.
pub proof fn law_side_apply_twice(m: Map<int, (Dec, Dec)>, es: Seq<(Dec, Dec)>)
    ensures
        side_apply_all(side_apply_all(m, es), es) == side_apply_all(m, es),
{
    let a = side_apply_all(m, es);
    let b = side_apply_all(a, es);
    assert forall|k: int| #[trigger] level_at(b, k) == level_at(a, k) by {
        lemma_level_after(a, es, k);
        lemma_level_after(m, es, k);
        lemma_level_twice(level_at(m, k), es, k);
    }
    assert forall|k: int| b.contains_key(k) == a.contains_key(k) by {
        assert(level_at(b, k) == level_at(a, k));
    }
    assert forall|k: int| b.contains_key(k) implies b[k] == a[k] by {
        assert(level_at(b, k) == level_at(a, k));
    }
    assert(b =~= a);
}

/// Applying a diff twice gives the book that applying it once gives, for a
/// diff that carries its own last id (else the id moves on a second time).
pub proof fn law_apply_twice_same_as_once(v: BookView, update: OrderBookUpdate)
    requires
        update.last_update_id > 0,
    ensures
        book_apply(book_apply(v, update), update) == book_apply(v, update),
{
    law_side_apply_twice(v.bids, update.bids@);
    law_side_apply_twice(v.asks, update.asks@);
}

/// An order book: bids highest first, asks lowest first.
#[derive(Debug)]
pub struct OrderBook {
    bids: Vec<(Dec, Dec)>,
    asks: Vec<(Dec, Dec)>,
    update_id: u64,
}

/// The update id after a diff: one more when the diff has entries (wrapping),
/// then the diff's last id when that is positive.
pub open spec fn next_update_id(id: u64, update: OrderBookUpdate) -> u64 {
    let bumped = if update.bids@.len() > 0 || update.asks@.len() > 0 {
        if id == u64::MAX {
            0
        } else {
            (id + 1) as u64
        }
    } else {
        id
    };
    if update.last_update_id > 0 {
        update.last_update_id
    } else {
        bumped
    }
}

proof fn lemma_sorted_unique(s: Seq<(Dec, Dec)>, desc: bool, i: int, j: int)
    requires
        side_sorted(s, desc),
        0 <= i < s.len(),
        0 <= j < s.len(),
        s[i].0.val() == s[j].0.val(),
    ensures
        i == j,
{
    if i < j {
        assert(key_before(s[i].0, s[j].0, desc));
    } else if j < i {
        assert(key_before(s[j].0, s[i].0, desc));
    }
}

proof fn lemma_view_at(s: Seq<(Dec, Dec)>, desc: bool, i: int)
    requires
        side_sorted(s, desc),
        0 <= i < s.len(),
    ensures
        side_view(s).contains_key(s[i].0.val()),
        side_view(s)[s[i].0.val()] == s[i],
{
    let k = s[i].0.val();
    assert(side_has(s, k));
    let j = choose|j: int| 0 <= j < s.len() && #[trigger] s[j].0.val() == k;
    lemma_sorted_unique(s, desc, i, j);
}

/// Finds where `price` sits on a sorted side: the first level that is not
/// strictly before it.
fn side_position(side: &Vec<(Dec, Dec)>, price: &Dec, desc: bool) -> (pos: usize)
    requires
        side_sorted(side@, desc),
    ensures
        pos <= side@.len(),
        forall|i: int| 0 <= i < pos ==> key_before(#[trigger] side@[i].0, *price, desc),
        pos < side@.len() ==> !key_before(side@[pos as int].0, *price, desc),
{
    let mut pos: usize = 0;
    while pos < side.len()
        invariant
            pos <= side@.len(),
            forall|i: int| 0 <= i < pos ==> key_before(#[trigger] side@[i].0, *price, desc),
        decreases side@.len() - pos,
    {
        let before = if desc {
            lt(price, &side[pos].0)
        } else {
            lt(&side[pos].0, price)
        };
        if !before {
            return pos;
        }
        pos = pos + 1;
    }
    pos
}

/// Applies one diff entry to a side (`collect == false`), or collects one
/// snapshot level into it (`collect == true`).
fn side_update(side: &mut Vec<(Dec, Dec)>, price: Dec, qty: Dec, desc: bool, collect: bool)
    requires
        side_sorted(old(side)@, desc),
    ensures
        side_sorted(final(side)@, desc),
        side_view(final(side)@) =~= (if collect {
            side_collect(side_view(old(side)@), price, qty)
        } else {
            side_apply(side_view(old(side)@), price, qty)
        }),
{
    let ghost s0 = side@;
    let pos = side_position(side, &price, desc);
    let zero = Dec::zero();
    let qty_zero = !collect && eq(&qty, &zero);
    let found = pos < side.len() && eq(&side[pos].0, &price);
    proof {
        // no level before `pos` has the price value, nor any level after it
        assert forall|i: int| 0 <= i < s0.len() && i != pos implies #[trigger] s0[i].0.val()
            != price.val() by {
            if i < pos {
                assert(key_before(s0[i].0, price, desc));
            } else {
                assert(key_before(s0[pos as int].0, s0[i].0, desc));
            }
        }
    }
    if found {
        let stored = if collect {
            price
        } else {
            side[pos].0
        };
        proof {
            lemma_view_at(s0, desc, pos as int);
        }
        if qty_zero {
            side.remove(pos);
            proof {
                let s1 = side@;
                assert forall|i: int, j: int| 0 <= i < j < s1.len() implies key_before(
                    #[trigger] s1[i].0,
                    #[trigger] s1[j].0,
                    desc,
                ) by {
                    let i0 = if i < pos { i } else { i + 1 };
                    let j0 = if j < pos { j } else { j + 1 };
                    assert(s1[i] == s0[i0] && s1[j] == s0[j0]);
                    assert(key_before(s0[i0].0, s0[j0].0, desc));
                }
                let m = if collect {
                    side_collect(side_view(s0), price, qty)
                } else {
                    side_apply(side_view(s0), price, qty)
                };
                assert forall|k: int| #[trigger] side_view(s1).contains_key(k) <==> m.contains_key(k) by {
                    if side_view(s1).contains_key(k) {
                        let i = choose|i: int| 0 <= i < s1.len() && #[trigger] s1[i].0.val() == k;
                        let i0 = if i < pos { i } else { i + 1 };
                        assert(s1[i] == s0[i0]);
                        lemma_view_at(s0, desc, i0);
                    }
                    if m.contains_key(k) {
                        let i0 = choose|i: int| 0 <= i < s0.len() && #[trigger] s0[i].0.val() == k;
                        let i = if i0 < pos { i0 } else { i0 - 1 };
                        assert(s1[i] == s0[i0]);
                        assert(side_has(s1, k));
                    }
                }
                assert forall|k: int| #[trigger] side_view(s1).contains_key(k) implies side_view(s1)[k]
                    == m[k] by {
                    let i = choose|i: int| 0 <= i < s1.len() && #[trigger] s1[i].0.val() == k;
                    let i0 = if i < pos { i } else { i + 1 };
                    assert(s1[i] == s0[i0]);
                    lemma_view_at(s1, desc, i);
                    lemma_view_at(s0, desc, i0);
                }
            }
        } else {
            side.set(pos, (stored, qty));
            proof {
                let s1 = side@;
                assert forall|i: int, j: int| 0 <= i < j < s1.len() implies key_before(
                    #[trigger] s1[i].0,
                    #[trigger] s1[j].0,
                    desc,
                ) by {
                    assert(s1[i].0.val() == s0[i].0.val() && s1[j].0.val() == s0[j].0.val());
                }
                let m = if collect {
                    side_collect(side_view(s0), price, qty)
                } else {
                    side_apply(side_view(s0), price, qty)
                };
                assert forall|k: int| #[trigger] side_view(s1).contains_key(k) <==> m.contains_key(k) by {
                    if side_view(s1).contains_key(k) {
                        let i = choose|i: int| 0 <= i < s1.len() && #[trigger] s1[i].0.val() == k;
                        assert(s1[i].0.val() == s0[i].0.val());
                        lemma_view_at(s0, desc, i);
                    }
                    if m.contains_key(k) {
                        let i = choose|i: int| 0 <= i < s0.len() && #[trigger] s0[i].0.val() == k;
                        assert(s1[i].0.val() == s0[i].0.val());
                        assert(side_has(s1, k));
                    }
                }
                assert forall|k: int| #[trigger] side_view(s1).contains_key(k) implies side_view(s1)[k]
                    == m[k] by {
                    let i = choose|i: int| 0 <= i < s1.len() && #[trigger] s1[i].0.val() == k;
                    assert(s1[i].0.val() == s0[i].0.val());
                    lemma_view_at(s1, desc, i);
                    lemma_view_at(s0, desc, i);
                }
            }
        }
    } else {
        proof {
            assert(!side_view(s0).contains_key(price.val()));
        }
        if !qty_zero {
            side.insert(pos, (price, qty));
            proof {
                let s1 = side@;
                assert forall|i: int, j: int| 0 <= i < j < s1.len() implies key_before(
                    #[trigger] s1[i].0,
                    #[trigger] s1[j].0,
                    desc,
                ) by {
                    if i < pos && j < pos {
                        assert(s1[i] == s0[i] && s1[j] == s0[j]);
                    } else if i < pos && j == pos {
                        assert(s1[i] == s0[i]);
                    } else if i < pos {
                        assert(s1[i] == s0[i] && s1[j] == s0[j - 1]);
                        assert(key_before(s0[pos as int].0, s0[j - 1].0, desc) || j - 1 == pos);
                    } else if i == pos {
                        assert(s1[j] == s0[j - 1]);
                        assert(key_before(s0[pos as int].0, s0[j - 1].0, desc) || j - 1 == pos);
                        assert(s0[pos as int].0.val() != price.val());
                    } else {
                        assert(s1[i] == s0[i - 1] && s1[j] == s0[j - 1]);
                    }
                }
                let m = if collect {
                    side_collect(side_view(s0), price, qty)
                } else {
                    side_apply(side_view(s0), price, qty)
                };
                assert forall|k: int| #[trigger] side_view(s1).contains_key(k) <==> m.contains_key(k) by {
                    if side_view(s1).contains_key(k) {
                        let i = choose|i: int| 0 <= i < s1.len() && #[trigger] s1[i].0.val() == k;
                        if i < pos {
                            assert(s1[i] == s0[i]);
                            lemma_view_at(s0, desc, i);
                        } else if i > pos {
                            assert(s1[i] == s0[i - 1]);
                            lemma_view_at(s0, desc, i - 1);
                        }
                    }
                    if m.contains_key(k) {
                        if k == price.val() {
                            assert(s1[pos as int].0.val() == k);
                        } else {
                            let i0 = choose|i: int| 0 <= i < s0.len() && #[trigger] s0[i].0.val() == k;
                            let i = if i0 < pos { i0 } else { i0 + 1 };
                            assert(s1[i] == s0[i0]);
                        }
                        assert(side_has(s1, k));
                    }
                }
                assert forall|k: int| #[trigger] side_view(s1).contains_key(k) implies side_view(s1)[k]
                    == m[k] by {
                    let i = choose|i: int| 0 <= i < s1.len() && #[trigger] s1[i].0.val() == k;
                    lemma_view_at(s1, desc, i);
                    if i < pos {
                        assert(s1[i] == s0[i]);
                        lemma_view_at(s0, desc, i);
                    } else if i > pos {
                        assert(s1[i] == s0[i - 1]);
                        lemma_view_at(s0, desc, i - 1);
                    }
                }
            }
        }
    }
}

impl OrderBook {
    #[verifier::type_invariant]
    spec fn inv(self) -> bool {
        &&& side_sorted(self.bids@, true)
        &&& side_sorted(self.asks@, false)
    }

    /// The bid levels, highest price first.
    pub closed spec fn bids_spec(self) -> Seq<(Dec, Dec)> {
        self.bids@
    }

    /// The ask levels, lowest price first.
    pub closed spec fn asks_spec(self) -> Seq<(Dec, Dec)> {
        self.asks@
    }

    pub open spec fn view(self) -> BookView {
        BookView {
            bids: side_view(self.bids_spec()),
            asks: side_view(self.asks_spec()),
            id: self.id_spec(),
        }
    }

    /// The id of the last diff applied.
    pub closed spec fn id_spec(self) -> u64 {
        self.update_id
    }

    pub fn update_id(&self) -> (r: u64)
        ensures
            r == self.id_spec(),
    {
        self.update_id
    }

    pub fn set_update_id(&mut self, id: u64)
        ensures
            final(self).id_spec() == id,
            final(self).bids_spec() == old(self).bids_spec(),
            final(self).asks_spec() == old(self).asks_spec(),
            final(self).view() == (BookView { id, ..old(self).view() }),
    {
        proof {
            use_type_invariant(&*self);
        }
        self.update_id = id;
    }

    /// An empty book with update id 0.
    pub fn new() -> (r: OrderBook)
        ensures
            r.bids_spec() == Seq::<(Dec, Dec)>::empty(),
            r.asks_spec() == Seq::<(Dec, Dec)>::empty(),
            r.id_spec() == 0,
            r.view() == (BookView { bids: Map::empty(), asks: Map::empty(), id: 0 }),
    {
        let bids: Vec<(Dec, Dec)> = Vec::new();
        let asks: Vec<(Dec, Dec)> = Vec::new();
        assert(side_sorted(bids@, true));
        assert(side_sorted(asks@, false));
        assert(side_view(bids@) =~= Map::<int, (Dec, Dec)>::empty());
        assert(side_view(asks@) =~= Map::<int, (Dec, Dec)>::empty());
        OrderBook { bids, asks, update_id: 0 }
    }

    /// A book built from snapshot levels, as collecting them into ordered maps
    /// does: for a repeated price value the last level wins, and levels with
    /// quantity zero are kept.
    pub fn from_levels(bids: &Vec<(Dec, Dec)>, asks: &Vec<(Dec, Dec)>, update_id: u64) -> (r: OrderBook)
        ensures
            side_view(r.bids_spec()) == side_collect_all(bids@),
            side_view(r.asks_spec()) == side_collect_all(asks@),
            r.id_spec() == update_id,
    {
        let b = collect_side(bids, true);
        let a = collect_side(asks, false);
        OrderBook { bids: b, asks: a, update_id }
    }

    /// Removes every level of both sides.
    pub fn clear(&mut self)
        ensures
            final(self).bids_spec() == Seq::<(Dec, Dec)>::empty(),
            final(self).asks_spec() == Seq::<(Dec, Dec)>::empty(),
            final(self).id_spec() == old(self).id_spec(),
            final(self).view() == (BookView { bids: Map::empty(), asks: Map::empty(), id: old(self).id_spec() }),
    {
        proof {
            use_type_invariant(&*self);
        }
        let bids: Vec<(Dec, Dec)> = Vec::new();
        let asks: Vec<(Dec, Dec)> = Vec::new();
        assert(side_sorted(bids@, true));
        assert(side_sorted(asks@, false));
        self.bids = bids;
        self.asks = asks;
        assert(side_view(self.bids@) =~= Map::<int, (Dec, Dec)>::empty());
        assert(side_view(self.asks@) =~= Map::<int, (Dec, Dec)>::empty());
    }

    /// Applies a depth diff: a full diff first empties the book; then every bid
    /// and ask entry is applied in order (quantity zero removes the price, any
    /// other quantity sets it); the update id moves on as `next_update_id` says.
    pub fn apply_update(&mut self, update: &OrderBookUpdate)
        ensures
            side_sorted(final(self).bids_spec(), true),
            side_sorted(final(self).asks_spec(), false),
            final(self).view() == book_apply(old(self).view(), *update),
    {
        proof {
            use_type_invariant(&*self);
        }
        let mut bids: Vec<(Dec, Dec)> = Vec::new();
        let mut asks: Vec<(Dec, Dec)> = Vec::new();
        std::mem::swap(&mut bids, &mut self.bids);
        std::mem::swap(&mut asks, &mut self.asks);
        if update.full {
            bids = Vec::new();
            asks = Vec::new();
        }
        let ghost bids0 = bids@;
        let ghost asks0 = asks@;
        proof {
            assert(side_view(Seq::<(Dec, Dec)>::empty()) =~= Map::<int, (Dec, Dec)>::empty());
        }
        let mut k: usize = 0;
        while k < update.bids.len()
            invariant
                k <= update.bids@.len(),
                side_sorted(bids@, true),
                side_view(bids@) == side_apply_all(side_view(bids0), update.bids@.take(k as int)),
            decreases update.bids@.len() - k,
        {
            let (price, qty) = update.bids[k];
            side_update(&mut bids, price, qty, true, false);
            proof {
                let es = update.bids@.take(k as int + 1);
                assert(es.drop_last() =~= update.bids@.take(k as int));
                assert(es.last() == update.bids@[k as int]);
            }
            k = k + 1;
        }
        proof {
            assert(update.bids@.take(update.bids@.len() as int) =~= update.bids@);
        }
        let mut k: usize = 0;
        while k < update.asks.len()
            invariant
                k <= update.asks@.len(),
                side_sorted(asks@, false),
                side_view(asks@) == side_apply_all(side_view(asks0), update.asks@.take(k as int)),
            decreases update.asks@.len() - k,
        {
            let (price, qty) = update.asks[k];
            side_update(&mut asks, price, qty, false, false);
            proof {
                let es = update.asks@.take(k as int + 1);
                assert(es.drop_last() =~= update.asks@.take(k as int));
                assert(es.last() == update.asks@[k as int]);
            }
            k = k + 1;
        }
        proof {
            assert(update.asks@.take(update.asks@.len() as int) =~= update.asks@);
        }
        self.bids = bids;
        self.asks = asks;
        if update.bids.len() > 0 || update.asks.len() > 0 {
            self.update_id = self.update_id.wrapping_add(1);
        }
        if update.last_update_id > 0 {
            self.update_id = update.last_update_id;
        }
    }

    /// The best (lowest) ask price, or `default` when there are no asks.
    pub fn best_ask_or(&self, default: Dec) -> (r: Dec)
        ensures
            r == (if self.asks_spec().len() == 0 { default } else { self.asks_spec()[0].0 }),
    {
        if self.asks.len() == 0 {
            default
        } else {
            self.asks[0].0
        }
    }

    /// The best (highest) bid price, or `default` when there are no bids.
    pub fn best_bid_or(&self, default: Dec) -> (r: Dec)
        ensures
            r == (if self.bids_spec().len() == 0 { default } else { self.bids_spec()[0].0 }),
    {
        if self.bids.len() == 0 {
            default
        } else {
            self.bids[0].0
        }
    }

    /// The bid levels, highest price first.
    pub fn get_bids(&self) -> (r: Vec<(Dec, Dec)>)
        ensures
            r@ == self.bids_spec(),
            side_sorted(r@, true),
    {
        proof {
            use_type_invariant(self);
        }
        copy_levels(&self.bids)
    }

    /// The ask levels, lowest price first.
    pub fn get_asks(&self) -> (r: Vec<(Dec, Dec)>)
        ensures
            r@ == self.asks_spec(),
            side_sorted(r@, false),
    {
        proof {
            use_type_invariant(self);
        }
        copy_levels(&self.asks)
    }
}

impl Clone for OrderBook {
    fn clone(&self) -> (r: OrderBook)
        ensures
            r.bids_spec() == self.bids_spec(),
            r.asks_spec() == self.asks_spec(),
            r.id_spec() == self.id_spec(),
    {
        proof {
            use_type_invariant(self);
        }
        OrderBook {
            bids: copy_levels(&self.bids),
            asks: copy_levels(&self.asks),
            update_id: self.update_id,
        }
    }
}

impl Default for OrderBook {
    fn default() -> (r: OrderBook)
        ensures
            r.bids_spec() == Seq::<(Dec, Dec)>::empty(),
            r.asks_spec() == Seq::<(Dec, Dec)>::empty(),
            r.id_spec() == 0,
    {
        OrderBook::new()
    }
}

fn collect_side(levels: &Vec<(Dec, Dec)>, desc: bool) -> (r: Vec<(Dec, Dec)>)
    ensures
        side_sorted(r@, desc),
        side_view(r@) == side_collect_all(levels@),
{
    let mut side: Vec<(Dec, Dec)> = Vec::new();
    proof {
        assert(side_view(side@) =~= Map::<int, (Dec, Dec)>::empty());
        assert(levels@.take(0) =~= Seq::<(Dec, Dec)>::empty());
    }
    let mut k: usize = 0;
    while k < levels.len()
        invariant
            k <= levels@.len(),
            side_sorted(side@, desc),
            side_view(side@) == side_collect_all(levels@.take(k as int)),
        decreases levels@.len() - k,
    {
        let (price, qty) = levels[k];
        side_update(&mut side, price, qty, desc, true);
        proof {
            let es = levels@.take(k as int + 1);
            assert(es.drop_last() =~= levels@.take(k as int));
            assert(es.last() == levels@[k as int]);
        }
        k = k + 1;
    }
    proof {
        assert(levels@.take(levels@.len() as int) =~= levels@);
    }
    side
}

fn copy_levels(side: &Vec<(Dec, Dec)>) -> (r: Vec<(Dec, Dec)>)
    ensures
        r@ == side@,
{
    let mut r: Vec<(Dec, Dec)> = Vec::new();
    let mut k: usize = 0;
    while k < side.len()
        invariant
            k <= side@.len(),
            r@ =~= side@.take(k as int),
        decreases side@.len() - k,
    {
        r.push(side[k]);
        k = k + 1;
    }
    assert(side@.take(side@.len() as int) =~= side@);
    r
}

/// The best level of a side (its first entry).
pub fn get_price(side: &Vec<(Dec, Dec)>) -> (r: (Dec, Dec))
    requires
        side@.len() > 0,
    ensures
        r == side@[0],
{
    side[0]
}

} // verus!
