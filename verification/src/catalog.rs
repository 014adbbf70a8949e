//! The symbol catalog of the Mexc web API: for each symbol, its id and its
//! items by name, the names in ascending order.
use crate::keyed::{insert_key, keyed_map, keys_unique, lemma_index_at};
use crate::mexc::{less_text, text_lt};
use crate::text::chars_of;
use vstd::prelude::*;

verus! {

/// One item of a symbol as the API lists it.
#[derive(Debug)]
pub struct SymbolItem {
    /// Item id.
    pub cd: String,
    /// Item name.
    pub vn: String,
    /// Id of the symbol the item belongs to.
    pub mcd: String,
    pub image: String,
}

/// What the catalog keeps of an item.
#[derive(Debug)]
pub struct Item {
    pub id: String,
    pub image: String,
}

impl Clone for Item {
    fn clone(&self) -> (r: Item)
        ensures
            r == *self,
    {
        Item { id: self.id.clone(), image: self.image.clone() }
    }
}

/// A symbol's id and its items, by name in ascending order, each name once.
#[derive(Debug)]
pub struct SymbolEntry {
    pub id: String,
    pub items: Vec<(String, Item)>,
}

impl Clone for SymbolEntry {
    fn clone(&self) -> (r: SymbolEntry)
        ensures
            r.id == self.id,
            r.items@ == self.items@,
    {
        let mut items: Vec<(String, Item)> = Vec::new();
        let mut i: usize = 0;
        while i < self.items.len()
            invariant
                i <= self.items@.len(),
                items@ == self.items@.take(i as int),
            decreases self.items@.len() - i,
        {
            let (name, item) = &self.items[i];
            items.push((name.clone(), item.clone()));
            proof {
                assert(items@ =~= self.items@.take(i as int + 1));
            }
            i = i + 1;
        }
        proof {
            assert(items@ =~= self.items@);
        }
        SymbolEntry { id: self.id.clone(), items }
    }
}

/// The symbols of the catalog, each with the items the API lists for it.
#[derive(Debug)]
pub struct SymbolData {
    pub symbols: Vec<(String, Vec<SymbolItem>)>,
}

/// The body of the catalog response.
#[derive(Debug)]
pub struct ApiResponse {
    pub data: SymbolData,
}

/// Names in strictly ascending order.
pub open spec fn names_ascending<V>(s: Seq<(String, V)>) -> bool {
    forall|i: int, j: int| 0 <= i < j < s.len() ==> text_lt((#[trigger] s[i]).0@, (#[trigger] s[j]).0@)
}

/// `(k, v)` put into pairs ordered by name: after the names that sort before
/// `k`, replacing the value of `k` when it is there.
pub open spec fn put_named<V>(s: Seq<(String, V)>, k: String, v: V) -> Seq<(String, V)>
    decreases s.len(),
{
    if s.len() == 0 {
        seq![(k, v)]
    } else if text_lt(s[0].0@, k@) {
        seq![s[0]] + put_named(s.drop_first(), k, v)
    } else if s[0].0@ == k@ {
        s.update(0, (s[0].0, v))
    } else {
        seq![(k, v)] + s
    }
}

/// The items of a list, by name (`vn`), in the order `put_named` leaves them.
pub open spec fn item_map(items: Seq<SymbolItem>) -> Seq<(String, Item)>
    decreases items.len(),
{
    if items.len() == 0 {
        Seq::empty()
    } else {
        let last = items.last();
        put_named(item_map(items.drop_last()), last.vn, Item { id: last.cd, image: last.image })
    }
}

proof fn lemma_put_named_at<V>(s: Seq<(String, V)>, k: String, v: V, p: int)
    requires
        0 <= p <= s.len(),
        forall|i: int| 0 <= i < p ==> text_lt((#[trigger] s[i]).0@, k@),
        p < s.len() ==> !text_lt(s[p].0@, k@),
    ensures
        p < s.len() && s[p].0@ == k@ ==> put_named(s, k, v) == s.update(p, (s[p].0, v)),
        !(p < s.len() && s[p].0@ == k@) ==> put_named(s, k, v) == s.insert(p, (k, v)),
    decreases p,
{
    if p == 0 {
        if s.len() == 0 {
            assert(s.insert(0, (k, v)) =~= seq![(k, v)]);
        } else if s[0].0@ != k@ {
            assert(s.insert(0, (k, v)) =~= seq![(k, v)] + s);
        }
    } else {
        let t = s.drop_first();
        assert forall|i: int| 0 <= i < p - 1 implies text_lt((#[trigger] t[i]).0@, k@) by {
            assert(t[i] == s[i + 1]);
        }
        if p < s.len() {
            assert(t[p - 1] == s[p]);
        }
        assert(text_lt(s[0].0@, k@));
        lemma_put_named_at(t, k, v, p - 1);
        if p < s.len() && s[p].0@ == k@ {
            assert(seq![s[0]] + t.update(p - 1, (t[p - 1].0, v)) =~= s.update(p, (s[p].0, v)));
        } else {
            assert(seq![s[0]] + t.insert(p - 1, (k, v)) =~= s.insert(p, (k, v)));
        }
    }
}

/// Puts item `v` under name `k` as a `BTreeMap` insert does: after the names
/// that sort before it, replacing the value when the name is there.
pub fn put_item(items: &mut Vec<(String, Item)>, k: String, v: Item)
    ensures
        final(items)@ == put_named(old(items)@, k, v),
{
    let kc = chars_of(k.as_str());
    let mut p: usize = 0;
    while p < items.len() && less_text(&chars_of(items[p].0.as_str()), &kc)
        invariant
            p <= items@.len(),
            kc@ == k@,
            forall|i: int| 0 <= i < p ==> text_lt((#[trigger] items@[i]).0@, k@),
        decreases items@.len() - p,
    {
        p = p + 1;
    }
    proof {
        lemma_put_named_at(items@, k, v, p as int);
    }
    if p < items.len() && items[p].0 == k {
        let (name, _) = items.remove(p);
        items.insert(p, (name, v));
    } else {
        items.insert(p, (k, v));
    }
}

/// The catalog entry of a symbol from its items: the symbol id of the first
/// item, and the items by name.
pub fn symbol_entry(items: &Vec<SymbolItem>) -> (r: SymbolEntry)
    requires
        items@.len() > 0,
    ensures
        r.id@ == items@[0].mcd@,
        r.items@ == item_map(items@),
{
    let mut map: Vec<(String, Item)> = Vec::new();
    let mut i: usize = 0;
    while i < items.len()
        invariant
            i <= items@.len(),
            map@ == item_map(items@.take(i as int)),
        decreases items@.len() - i,
    {
        let it = &items[i];
        let item = Item { id: it.cd.clone(), image: it.image.clone() };
        put_item(&mut map, it.vn.clone(), item);
        proof {
            let t = items@.take(i as int + 1);
            assert(t.drop_last() =~= items@.take(i as int));
            assert(t.last() == items@[i as int]);
        }
        i = i + 1;
    }
    proof {
        assert(items@.take(items@.len() as int) =~= items@);
    }
    SymbolEntry { id: items[0].mcd.clone(), items: map }
}

/// Every symbol lists at least one item.
pub open spec fn all_listed(symbols: Seq<(String, Vec<SymbolItem>)>) -> bool {
    forall|i: int| 0 <= i < symbols.len() ==> (#[trigger] symbols[i]).1@.len() > 0
}

/// The catalog of a response: each symbol by name with its entry; a name the
/// response repeats keeps its last entry.
pub fn build_catalog(data: &SymbolData) -> (r: Vec<(String, SymbolEntry)>)
    requires
        all_listed(data.symbols@),
    ensures
        keys_unique(r@),
        keyed_map(r@).dom() == data.symbols@.map_values(|p: (String, Vec<SymbolItem>)| p.0@).to_set(),
        forall|k: Seq<char>|
            #[trigger] keyed_map(r@).contains_key(k) ==> exists|i: int|
                0 <= i < data.symbols@.len() && (#[trigger] data.symbols@[i]).0@ == k && (forall|j: int|
                    i < j < data.symbols@.len() ==> data.symbols@[j].0@ != k) && keyed_map(r@)[k].id@
                    == data.symbols@[i].1@[0].mcd@ && keyed_map(r@)[k].items@ == item_map(
                    data.symbols@[i].1@,
                ),
{
    let syms = &data.symbols;
    let mut out: Vec<(String, SymbolEntry)> = Vec::new();
    let mut i: usize = 0;
    while i < syms.len()
        invariant
            i <= syms@.len(),
            syms@ == data.symbols@,
            all_listed(syms@),
            keys_unique(out@),
            keyed_map(out@).dom() == syms@.take(i as int).map_values(
                |p: (String, Vec<SymbolItem>)| p.0@,
            ).to_set(),
            forall|k: Seq<char>|
                #[trigger] keyed_map(out@).contains_key(k) ==> exists|a: int|
                    0 <= a < i && (#[trigger] syms@[a]).0@ == k && (forall|j: int|
                        a < j < i ==> syms@[j].0@ != k) && keyed_map(out@)[k].id@ == syms@[a].1@[0].mcd@
                        && keyed_map(out@)[k].items@ == item_map(syms@[a].1@),
        decreases syms@.len() - i,
    {
        let (name, items) = &syms[i];
        assert(syms@[i as int].1@.len() > 0);
        let entry = symbol_entry(items);
        let ghost out0 = out@;
        insert_key(&mut out, name.clone(), entry);
        proof {
            let f = |p: (String, Vec<SymbolItem>)| p.0@;
            let t0 = syms@.take(i as int);
            let t1 = syms@.take(i as int + 1);
            assert(t1 =~= t0.push(syms@[i as int]));
            assert(t1.map_values(f) =~= t0.map_values(f).push(name@));
            t0.map_values(f).lemma_push_to_set_commute(name@);
            assert(keyed_map(out@).dom() =~= t1.map_values(f).to_set());
            assert forall|k: Seq<char>| #[trigger] keyed_map(out@).contains_key(k) implies exists|a: int|
                0 <= a < i + 1 && (#[trigger] syms@[a]).0@ == k && (forall|j: int|
                    a < j < i + 1 ==> syms@[j].0@ != k) && keyed_map(out@)[k].id@ == syms@[a].1@[0].mcd@
                    && keyed_map(out@)[k].items@ == item_map(syms@[a].1@) by {
                if k == name@ {
                    assert(syms@[i as int].0@ == k);
                } else {
                    assert(keyed_map(out0).contains_key(k));
                    let a = choose|a: int|
                        0 <= a < i && (#[trigger] syms@[a]).0@ == k && (forall|j: int|
                            a < j < i ==> syms@[j].0@ != k) && keyed_map(out0)[k].id@ == syms@[a].1@[0].mcd@
                            && keyed_map(out0)[k].items@ == item_map(syms@[a].1@);
                    assert(syms@[a].0@ == k);
                }
            }
        }
        i = i + 1;
    }
    proof {
        assert(syms@.take(syms@.len() as int) =~= syms@);
    }
    out
}


proof fn lemma_text_lt_irreflexive(a: Seq<char>)
    ensures
        !text_lt(a, a),
    decreases a.len(),
{
    if a.len() > 0 {
        lemma_text_lt_irreflexive(a.drop_first());
    }
}

proof fn lemma_text_lt_transitive(a: Seq<char>, b: Seq<char>, c: Seq<char>)
    requires
        text_lt(a, b),
        text_lt(b, c),
    ensures
        text_lt(a, c),
    decreases a.len(),
{
    if a.len() > 0 && b.len() > 0 && c.len() > 0 && a[0] == b[0] && b[0] == c[0] {
        lemma_text_lt_transitive(a.drop_first(), b.drop_first(), c.drop_first());
    }
}

proof fn lemma_text_lt_total(a: Seq<char>, b: Seq<char>)
    requires
        a != b,
    ensures
        text_lt(a, b) || text_lt(b, a),
    decreases a.len(),
{
    if a.len() > 0 && b.len() > 0 && a[0] == b[0] {
        if a.drop_first() == b.drop_first() {
            assert(a =~= seq![a[0]] + a.drop_first());
            assert(b =~= seq![b[0]] + b.drop_first());
        }
        lemma_text_lt_total(a.drop_first(), b.drop_first());
    } else if a.len() > 0 && b.len() > 0 {
        let x = a[0];
        let y = b[0];
        vstd::utf8::char_u32_cast(x, x as u32);
        vstd::utf8::char_u32_cast(y, y as u32);
    } else if a.len() == 0 && b.len() == 0 {
        assert(a =~= b);
    }
}

/// Ascending names are distinct.
proof fn lemma_ascending_unique<V>(s: Seq<(String, V)>)
    requires
        names_ascending(s),
    ensures
        keys_unique(s),
{
    assert forall|i: int, j: int| 0 <= i < j < s.len() implies (#[trigger] s[i]).0@ != (#[trigger] s[j]).0@ by {
        if s[i].0@ == s[j].0@ {
            lemma_text_lt_irreflexive(s[i].0@);
        }
    }
}

proof fn lemma_put_named_ascending<V>(s: Seq<(String, V)>, k: String, v: V)
    requires
        names_ascending(s),
    ensures
        names_ascending(put_named(s, k, v)),
        forall|i: int|
            0 <= i < put_named(s, k, v).len() ==> (#[trigger] put_named(s, k, v)[i]).0@ == k@ || exists|j: int|
                0 <= j < s.len() && s[j].0@ == put_named(s, k, v)[i].0@,
        keyed_map(put_named(s, k, v)) == keyed_map(s).insert(k@, v),
    decreases s.len(),
{
    let r = put_named(s, k, v);
    lemma_ascending_unique(s);
    if s.len() == 0 {
        assert(keyed_map(r) =~= keyed_map(s).insert(k@, v)) by {
            assert(r[0].0@ == k@);
            assert(keyed_map(r).contains_key(k@));
        }
    } else if text_lt(s[0].0@, k@) {
        let t = s.drop_first();
        assert forall|i: int, j: int| 0 <= i < j < t.len() implies text_lt((#[trigger] t[i]).0@, (#[trigger] t[j]).0@) by {
            assert(t[i] == s[i + 1] && t[j] == s[j + 1]);
        }
        lemma_put_named_ascending(t, k, v);
        let rt = put_named(t, k, v);
        assert(r == seq![s[0]] + rt);
        assert forall|i: int, j: int| 0 <= i < j < r.len() implies text_lt((#[trigger] r[i]).0@, (#[trigger] r[j]).0@) by {
            if i == 0 {
                assert(r[j] == rt[j - 1]);
                if rt[j - 1].0@ != k@ {
                    let m = choose|m: int| 0 <= m < t.len() && t[m].0@ == rt[j - 1].0@;
                    assert(t[m] == s[m + 1]);
                }
            } else {
                assert(r[i] == rt[i - 1] && r[j] == rt[j - 1]);
            }
        }
        assert forall|i: int| 0 <= i < r.len() implies (#[trigger] r[i]).0@ == k@ || exists|j: int|
            0 <= j < s.len() && s[j].0@ == r[i].0@ by {
            if i > 0 {
                assert(r[i] == rt[i - 1]);
                if rt[i - 1].0@ != k@ {
                    let m = choose|m: int| 0 <= m < t.len() && t[m].0@ == rt[i - 1].0@;
                    assert(s[m + 1] == t[m]);
                }
            } else {
                assert(s[0].0@ == r[0].0@);
            }
        }
        lemma_ascending_unique(r);
        lemma_ascending_unique(rt);
        lemma_ascending_unique(t);
        assert(keyed_map(r) =~= keyed_map(s).insert(k@, v)) by {
            assert forall|key: Seq<char>| keyed_map(r).contains_key(key) <==> keyed_map(s).insert(k@, v).contains_key(key) by {
                if keyed_map(r).contains_key(key) {
                    let a = choose|a: int| 0 <= a < r.len() && (#[trigger] r[a]).0@ == key;
                    if a > 0 {
                        assert(r[a] == rt[a - 1]);
                        assert(keyed_map(rt).contains_key(key));
                        if key != k@ {
                            let m = choose|m: int| 0 <= m < t.len() && (#[trigger] t[m]).0@ == key;
                            assert(s[m + 1] == t[m]);
                        }
                    }
                }
                if keyed_map(s).insert(k@, v).contains_key(key) {
                    if key == k@ {
                        assert(keyed_map(rt).contains_key(key));
                        let m = choose|m: int| 0 <= m < rt.len() && (#[trigger] rt[m]).0@ == key;
                        assert(r[m + 1] == rt[m]);
                    } else {
                        let a = choose|a: int| 0 <= a < s.len() && (#[trigger] s[a]).0@ == key;
                        if a > 0 {
                            assert(t[a - 1] == s[a]);
                            assert(keyed_map(t).contains_key(key));
                            assert(keyed_map(rt).contains_key(key));
                            let m = choose|m: int| 0 <= m < rt.len() && (#[trigger] rt[m]).0@ == key;
                            assert(r[m + 1] == rt[m]);
                        } else {
                            assert(r[0] == s[0]);
                        }
                    }
                }
            }
            assert forall|key: Seq<char>| #[trigger] keyed_map(r).contains_key(key) implies keyed_map(r)[key] == keyed_map(s).insert(k@, v)[key] by {
                let a = choose|a: int| 0 <= a < r.len() && (#[trigger] r[a]).0@ == key;
                lemma_index_at(r, a);
                assert(keyed_map(r)[key] == r[a].1);
                if a == 0 {
                    assert(r[0] == s[0]);
                    lemma_text_lt_irreflexive(k@);
                    lemma_index_at(s, 0);
                    assert(keyed_map(s)[key] == s[0].1);
                } else {
                    assert(r[a] == rt[a - 1]);
                    lemma_index_at(rt, a - 1);
                    assert(keyed_map(rt)[key] == rt[a - 1].1);
                    if key != k@ {
                        assert(keyed_map(t).contains_key(key));
                        let ta = choose|x: int| 0 <= x < t.len() && (#[trigger] t[x]).0@ == key;
                        lemma_index_at(t, ta);
                        assert(s[ta + 1] == t[ta]);
                        lemma_index_at(s, ta + 1);
                        assert(keyed_map(s)[key] == s[ta + 1].1);
                        assert(keyed_map(t)[key] == t[ta].1);
                    }
                }
            }
        }
    } else if s[0].0@ == k@ {
        assert forall|i: int, j: int| 0 <= i < j < r.len() implies text_lt((#[trigger] r[i]).0@, (#[trigger] r[j]).0@) by {
            assert(r[i].0 == s[i].0 && r[j].0 == s[j].0);
        }
        assert forall|i: int| 0 <= i < r.len() implies (#[trigger] r[i]).0@ == k@ || exists|j: int|
            0 <= j < s.len() && s[j].0@ == r[i].0@ by {
            assert(r[i].0 == s[i].0);
        }
        lemma_ascending_unique(r);
        assert(keyed_map(r) =~= keyed_map(s).insert(k@, v)) by {
            assert forall|key: Seq<char>| keyed_map(r).contains_key(key) <==> keyed_map(s).insert(k@, v).contains_key(key) by {
                if keyed_map(r).contains_key(key) {
                    let a = choose|a: int| 0 <= a < r.len() && (#[trigger] r[a]).0@ == key;
                    assert(s[a].0 == r[a].0);
                }
                if keyed_map(s).contains_key(key) {
                    let a = choose|a: int| 0 <= a < s.len() && (#[trigger] s[a]).0@ == key;
                    assert(s[a].0 == r[a].0);
                }
                if key == k@ {
                    assert(r[0].0@ == key);
                }
            }
            assert forall|key: Seq<char>| #[trigger] keyed_map(r).contains_key(key) implies keyed_map(r)[key] == keyed_map(s).insert(k@, v)[key] by {
                let a = choose|x: int| 0 <= x < r.len() && (#[trigger] r[x]).0@ == key;
                assert(s[a].0 == r[a].0);
                let sa = choose|x: int| 0 <= x < s.len() && (#[trigger] s[x]).0@ == key;
                if sa != a {
                    if sa < a { assert(s[sa].0@ != s[a].0@); } else { assert(s[a].0@ != s[sa].0@); }
                }
                if a != 0 {
                    assert(s[0].0@ != s[a].0@);
                }
            }
        }
    } else {
        lemma_text_lt_total(s[0].0@, k@);
        assert(r == seq![(k, v)] + s);
        assert forall|i: int, j: int| 0 <= i < j < r.len() implies text_lt((#[trigger] r[i]).0@, (#[trigger] r[j]).0@) by {
            if i == 0 {
                assert(r[j] == s[j - 1]);
                if j > 1 {
                    lemma_text_lt_transitive(k@, s[0].0@, s[j - 1].0@);
                }
            } else {
                assert(r[i] == s[i - 1] && r[j] == s[j - 1]);
            }
        }
        assert forall|i: int| 0 <= i < r.len() implies (#[trigger] r[i]).0@ == k@ || exists|j: int|
            0 <= j < s.len() && s[j].0@ == r[i].0@ by {
            if i > 0 {
                assert(r[i] == s[i - 1]);
            }
        }
        lemma_ascending_unique(r);
        assert(keyed_map(r) =~= keyed_map(s).insert(k@, v)) by {
            assert forall|key: Seq<char>| keyed_map(r).contains_key(key) <==> keyed_map(s).insert(k@, v).contains_key(key) by {
                if keyed_map(r).contains_key(key) {
                    let a = choose|a: int| 0 <= a < r.len() && (#[trigger] r[a]).0@ == key;
                    if a > 0 {
                        assert(r[a] == s[a - 1]);
                    }
                }
                if keyed_map(s).contains_key(key) {
                    let a = choose|a: int| 0 <= a < s.len() && (#[trigger] s[a]).0@ == key;
                    assert(r[a + 1] == s[a]);
                }
                if key == k@ {
                    assert(r[0].0@ == key);
                }
            }
            assert forall|key: Seq<char>| #[trigger] keyed_map(r).contains_key(key) implies keyed_map(r)[key] == keyed_map(s).insert(k@, v)[key] by {
                let a = choose|x: int| 0 <= x < r.len() && (#[trigger] r[x]).0@ == key;
                if a > 0 {
                    assert(r[a] == s[a - 1]);
                    assert(r[0].0@ != r[a].0@);
                    let sa = choose|x: int| 0 <= x < s.len() && (#[trigger] s[x]).0@ == key;
                    if sa != a - 1 {
                        if sa < a - 1 { assert(s[sa].0@ != s[a - 1].0@); } else { assert(s[a - 1].0@ != s[sa].0@); }
                    }
                }
            }
        }
    }
}

/// The last item of each name, by name.
pub open spec fn items_by_name(items: Seq<SymbolItem>) -> Map<Seq<char>, Item>
    decreases items.len(),
{
    if items.len() == 0 {
        Map::empty()
    } else {
        let last = items.last();
        items_by_name(items.drop_last()).insert(last.vn@, Item { id: last.cd, image: last.image })
    }
}

/// A catalog entry lists its items in strictly ascending name order, each name
/// once, with the last item the API gave under that name.
pub proof fn law_entry_items_ordered_by_name(items: Seq<SymbolItem>)
    ensures
        names_ascending(item_map(items)),
        keys_unique(item_map(items)),
        keyed_map(item_map(items)) == items_by_name(items),
    decreases items.len(),
{
    if items.len() == 0 {
        assert(keyed_map(item_map(items)) =~= Map::<Seq<char>, Item>::empty());
    } else {
        let last = items.last();
        law_entry_items_ordered_by_name(items.drop_last());
        lemma_put_named_ascending(item_map(items.drop_last()), last.vn, Item { id: last.cd, image: last.image });
        lemma_ascending_unique(item_map(items));
    }
}

} // verus!
