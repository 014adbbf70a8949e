//! Depth diff messages of Binance and Gate, read out of their JSON: the
//! symbol, the ids, and the levels of each side.
use crate::decimal::{decimal_from_str, Dec};
use crate::json::{
    decimal_value, field, json_bool, json_decimal, json_field, json_text, json_u64, opt_field, text_value,
    u64_value, Json,
};
use crate::order_book::OrderBookUpdate;
use vstd::prelude::*;

verus! {

/// A level written `[price, quantity, ..]` with both as strings of a plain
/// decimal (Binance and Gate spot).
pub open spec fn text_level(e: Json) -> Option<(Dec, Dec)> {
    match e {
        Json::Array(xs) => if xs@.len() >= 2 {
            match (json_text(Some(xs@[0])), json_text(Some(xs@[1]))) {
                (Some(p), Some(q)) => match (decimal_from_str(p), decimal_from_str(q)) {
                    (Some(a), Some(b)) => Some((a, b)),
                    _ => None,
                },
                _ => None,
            }
        } else {
            None
        },
        _ => None,
    }
}

/// A level written `{"p": price, "s": size}` or `[price, size]`, each a
/// string or a number (Gate futures).
pub open spec fn item_level(e: Json) -> Option<(Dec, Dec)> {
    match e {
        Json::Object(_) => match (json_field(e, "p"@), json_field(e, "s"@)) {
            (Some(p), Some(q)) => match (json_decimal(p), json_decimal(q)) {
                (Some(a), Some(b)) => Some((a, b)),
                _ => None,
            },
            _ => None,
        },
        Json::Array(_) => pair_level(e),
        _ => None,
    }
}

/// How the levels of a side are written.
#[derive(Debug, Clone, Copy, PartialEq, Eq, Structural)]
pub enum LevelForm {
    /// `[price, quantity, ..]`, both strings of a plain decimal (the depth
    /// diffs of Binance and of Gate spot).
    Texts,
    /// `[price, quantity]`, each a decimal as a string or a number (snapshots
    /// of Binance and of Gate spot).
    Pair,
    /// `{"p": price, "s": size}` or `[price, size]`, each a decimal as a string
    /// or a number (Gate futures).
    Item,
}

/// A level written as a pair of decimals.
pub open spec fn pair_level(e: Json) -> Option<(Dec, Dec)> {
    match e {
        Json::Array(xs) => if xs@.len() == 2 {
            match (json_decimal(xs@[0]), json_decimal(xs@[1])) {
                (Some(a), Some(b)) => Some((a, b)),
                _ => None,
            }
        } else {
            None
        },
        _ => None,
    }
}

/// One level in the given form.
pub open spec fn level_spec(e: Json, form: LevelForm) -> Option<(Dec, Dec)> {
    match form {
        LevelForm::Texts => text_level(e),
        LevelForm::Pair => pair_level(e),
        LevelForm::Item => item_level(e),
    }
}

/// A side: an array whose every entry is a level; `None` when the side is
/// missing, is not an array, or holds an entry that is not a level.
pub open spec fn side_spec(o: Option<Json>, form: LevelForm) -> Option<Seq<(Dec, Dec)>> {
    match o {
        Some(Json::Array(xs)) => if forall|i: int| 0 <= i < xs@.len() ==> (#[trigger] level_spec(xs@[i], form)) is Some {
            Some(xs@.map_values(|e: Json| level_spec(e, form)->0))
        } else {
            None
        },
        _ => None,
    }
}

fn pair_of(a: &Json, b: &Json, decimals: bool) -> (r: Option<(Dec, Dec)>)
    ensures
        decimals ==> r == (match (json_decimal(*a), json_decimal(*b)) {
            (Some(x), Some(y)) => Some((x, y)),
            _ => None,
        }),
        !decimals ==> r == (match (json_text(Some(*a)), json_text(Some(*b))) {
            (Some(p), Some(q)) => match (decimal_from_str(p), decimal_from_str(q)) {
                (Some(x), Some(y)) => Some((x, y)),
                _ => None,
            },
            _ => None,
        }),
{
    if decimals {
        match (decimal_value(a), decimal_value(b)) {
            (Some(x), Some(y)) => Some((x, y)),
            _ => None,
        }
    } else {
        match (text_value(a), text_value(b)) {
            (Some(p), Some(q)) => match (crate::decimal::parse_decimal(p.as_str()), crate::decimal::parse_decimal(
                q.as_str(),
            )) {
                (Some(x), Some(y)) => Some((x, y)),
                _ => None,
            },
            _ => None,
        }
    }
}

/// One level of a depth side.
pub fn level_of(e: &Json, form: LevelForm) -> (r: Option<(Dec, Dec)>)
    ensures
        r == level_spec(*e, form),
{
    match e {
        Json::Array(xs) => match form {
            LevelForm::Texts => if xs.len() >= 2 {
                pair_of(&xs[0], &xs[1], false)
            } else {
                None
            },
            _ => if xs.len() == 2 {
                pair_of(&xs[0], &xs[1], true)
            } else {
                None
            },
        },
        Json::Object(_) => match form {
            LevelForm::Item => {
                let p = field(e, "p");
                let q = field(e, "s");
                match (p, q) {
                    (Some(p), Some(q)) => pair_of(p, q, true),
                    _ => None,
                }
            },
            _ => None,
        },
        _ => None,
    }
}

/// The levels of a depth side.
pub fn side_levels(o: Option<&Json>, form: LevelForm) -> (r: Option<Vec<(Dec, Dec)>>)
    ensures
        match r {
            Some(v) => side_spec(
                match o {
                    Some(j) => Some(*j),
                    None => None,
                },
                form,
            ) == Some(v@),
            None => side_spec(
                match o {
                    Some(j) => Some(*j),
                    None => None,
                },
                form,
            ) is None,
        },
{
    let ghost oo = match o {
        Some(j) => Some(*j),
        None => None,
    };
    let xs = match o {
        Some(Json::Array(xs)) => xs,
        _ => return None,
    };
    assert(oo == Some(Json::Array(*xs)));
    let mut out: Vec<(Dec, Dec)> = Vec::new();
    let mut i: usize = 0;
    while i < xs.len()
        invariant
            oo == Some(Json::Array(*xs)),
            oo == (match o {
                Some(j) => Some(*j),
                None => None,
            }),
            i <= xs@.len(),
            forall|k: int| 0 <= k < i ==> (#[trigger] level_spec(xs@[k], form)) is Some,
            out@ == xs@.take(i as int).map_values(|e: Json| level_spec(e, form)->0),
        decreases xs@.len() - i,
    {
        match level_of(&xs[i], form) {
            Some(l) => {
                out.push(l);
                proof {
                    assert(xs@.take(i as int + 1).map_values(|e: Json| level_spec(e, form)->0) =~= xs@.take(
                        i as int,
                    ).map_values(|e: Json| level_spec(e, form)->0).push(l));
                }
            },
            None => {
                proof {
                    assert(level_spec(xs@[i as int], form) is None);
                }
                return None;
            },
        }
        i = i + 1;
    }
    proof {
        assert(xs@.take(xs@.len() as int) =~= xs@);
    }
    Some(out)
}

/// A value that may be missing, seen without its reference.
pub open spec fn deref_json(o: Option<&Json>) -> Option<Json> {
    match o {
        Some(j) => Some(*j),
        None => None,
    }
}

fn get_field<'a>(o: Option<&'a Json>, k: &str) -> (r: Option<&'a Json>)
    ensures
        deref_json(r) == opt_field(deref_json(o), k@),
{
    match o {
        Some(j) => field(j, k),
        None => None,
    }
}

fn opt_text(o: Option<&Json>) -> (r: Option<String>)
    ensures
        match r {
            Some(t) => json_text(deref_json(o)) == Some(t@),
            None => json_text(deref_json(o)) is None,
        },
{
    match o {
        Some(j) => text_value(j),
        None => None,
    }
}

fn opt_u64(o: Option<&Json>) -> (r: Option<u64>)
    ensures
        r == json_u64(deref_json(o)),
{
    match o {
        Some(j) => u64_value(j),
        None => None,
    }
}

fn opt_bool(o: Option<&Json>) -> (r: Option<bool>)
    ensures
        r == json_bool(deref_json(o)),
{
    match o {
        Some(Json::Bool(b)) => Some(*b),
        _ => None,
    }
}

/// A depth diff message. A side is `None` when it does not read; it is read
/// with the message but needed only when the diff is applied.
#[derive(Debug)]
pub struct DepthEvent {
    pub symbol: String,
    pub first: u64,
    pub last: u64,
    /// The id of the previous diff (Binance futures).
    pub prev: Option<u64>,
    /// The diff replaces the whole book (Gate).
    pub full: bool,
    pub bids: Option<Vec<(Dec, Dec)>>,
    pub asks: Option<Vec<(Dec, Dec)>>,
}

pub struct DepthEventView {
    pub symbol: Seq<char>,
    pub first: u64,
    pub last: u64,
    pub prev: Option<u64>,
    pub full: bool,
    pub bids: Option<Seq<(Dec, Dec)>>,
    pub asks: Option<Seq<(Dec, Dec)>>,
}

pub open spec fn levels_view(o: Option<Vec<(Dec, Dec)>>) -> Option<Seq<(Dec, Dec)>> {
    match o {
        Some(v) => Some(v@),
        None => None,
    }
}

impl View for DepthEvent {
    type V = DepthEventView;

    open spec fn view(&self) -> DepthEventView {
        DepthEventView {
            symbol: self.symbol@,
            first: self.first,
            last: self.last,
            prev: self.prev,
            full: self.full,
            bids: levels_view(self.bids),
            asks: levels_view(self.asks),
        }
    }
}

/// What a Binance depth message says: `s` the symbol, `U` and `u` the first and
/// last ids (all three required), `pu` the previous id if present, `b` and `a`
/// the sides as `[price, quantity]` strings.
pub open spec fn binance_event_spec(msg: Json) -> Option<DepthEventView> {
    match (
        json_text(json_field(msg, "s"@)),
        json_u64(json_field(msg, "u"@)),
        json_u64(json_field(msg, "U"@)),
    ) {
        (Some(symbol), Some(last), Some(first)) => Some(
            DepthEventView {
                symbol,
                first,
                last,
                prev: json_u64(json_field(msg, "pu"@)),
                full: false,
                bids: side_spec(json_field(msg, "b"@), LevelForm::Texts),
                asks: side_spec(json_field(msg, "a"@), LevelForm::Texts),
            },
        ),
        _ => None,
    }
}

/// The form of the levels of a Gate diff: strings on spot, items on futures.
pub open spec fn gate_form_spec(future: bool) -> LevelForm {
    if future {
        LevelForm::Item
    } else {
        LevelForm::Texts
    }
}

#[verifier::when_used_as_spec(gate_form_spec)]
pub fn gate_form(future: bool) -> (r: LevelForm)
    ensures
        r == gate_form_spec(future),
{
    if future {
        LevelForm::Item
    } else {
        LevelForm::Texts
    }
}

/// What a Gate depth message says, under `result`: `s` the symbol, `U` and
/// `u` the first and last ids (all three required), `full` when it is `true`,
/// `b` and `a` the sides (`[price, size]` strings on spot, price/size items on
/// futures).
pub open spec fn gate_event_spec(msg: Json, future: bool) -> Option<DepthEventView> {
    let r = json_field(msg, "result"@);
    match (json_text(opt_field(r, "s"@)), json_u64(opt_field(r, "u"@)), json_u64(opt_field(r, "U"@))) {
        (Some(symbol), Some(last), Some(first)) => Some(
            DepthEventView {
                symbol,
                first,
                last,
                prev: None,
                full: json_bool(opt_field(r, "full"@)) == Some(true),
                bids: side_spec(opt_field(r, "b"@), gate_form(future)),
                asks: side_spec(opt_field(r, "a"@), gate_form(future)),
            },
        ),
        _ => None,
    }
}

/// Reads a Binance depth message; `None` when the symbol or an id is missing.
pub fn binance_depth_event(msg: &Json) -> (r: Option<DepthEvent>)
    ensures
        match r {
            Some(e) => binance_event_spec(*msg) == Some(e@),
            None => binance_event_spec(*msg) is None,
        },
{
    let m = Some(msg);
    let symbol = match opt_text(get_field(m, "s")) {
        Some(s) => s,
        None => return None,
    };
    let last = match opt_u64(get_field(m, "u")) {
        Some(v) => v,
        None => return None,
    };
    let first = match opt_u64(get_field(m, "U")) {
        Some(v) => v,
        None => return None,
    };
    let prev = opt_u64(get_field(m, "pu"));
    let bids = side_levels(get_field(m, "b"), LevelForm::Texts);
    let asks = side_levels(get_field(m, "a"), LevelForm::Texts);
    Some(DepthEvent { symbol, first, last, prev, full: false, bids, asks })
}

/// Reads a Gate depth message of the spot or the futures stream; `None` when
/// the symbol or an id is missing.
pub fn gate_depth_event(msg: &Json, future: bool) -> (r: Option<DepthEvent>)
    ensures
        match r {
            Some(e) => gate_event_spec(*msg, future) == Some(e@),
            None => gate_event_spec(*msg, future) is None,
        },
{
    let res = get_field(Some(msg), "result");
    let symbol = match opt_text(get_field(res, "s")) {
        Some(s) => s,
        None => return None,
    };
    let last = match opt_u64(get_field(res, "u")) {
        Some(v) => v,
        None => return None,
    };
    let first = match opt_u64(get_field(res, "U")) {
        Some(v) => v,
        None => return None,
    };
    let full = match opt_bool(get_field(res, "full")) {
        Some(b) => b,
        None => false,
    };
    let bids = side_levels(get_field(res, "b"), gate_form(future));
    let asks = side_levels(get_field(res, "a"), gate_form(future));
    Some(DepthEvent { symbol, first, last, prev: None, full, bids, asks })
}

impl DepthEvent {
    /// The diff the message carries; `None` when a side did not read.
    pub fn into_update(self) -> (r: Option<OrderBookUpdate>)
        ensures
            match (self.bids, self.asks) {
                (Some(b), Some(a)) => r matches Some(u) && u.bids@ == b@ && u.asks@ == a@ && u.first_update_id
                    == self.first && u.last_update_id == self.last && u.full == self.full,
                _ => r is None,
            },
    {
        match (self.bids, self.asks) {
            (Some(bids), Some(asks)) => Some(
                OrderBookUpdate {
                    bids,
                    asks,
                    first_update_id: self.first,
                    last_update_id: self.last,
                    full: self.full,
                },
            ),
            _ => None,
        }
    }
}

/// A depth snapshot: its id and its two sides.
#[derive(Debug)]
pub struct DepthSnapshot {
    pub id: u64,
    pub bids: Vec<(Dec, Dec)>,
    pub asks: Vec<(Dec, Dec)>,
}

/// What a snapshot document says: its id under `id_key`, and its `bids` and
/// `asks` in the given form, all three required.
pub open spec fn snapshot_spec(j: Json, id_key: Seq<char>, form: LevelForm) -> Option<
    (u64, Seq<(Dec, Dec)>, Seq<(Dec, Dec)>),
> {
    match (
        json_u64(json_field(j, id_key)),
        side_spec(json_field(j, "bids"@), form),
        side_spec(json_field(j, "asks"@), form),
    ) {
        (Some(id), Some(b), Some(a)) => Some((id, b, a)),
        _ => None,
    }
}

/// Reads a depth snapshot (Binance: id under `lastUpdateId`, pairs; Gate: id
/// under `id`, pairs on spot and items on futures).
pub fn depth_snapshot(j: &Json, id_key: &str, form: LevelForm) -> (r: Option<DepthSnapshot>)
    ensures
        match r {
            Some(s) => snapshot_spec(*j, id_key@, form) == Some((s.id, s.bids@, s.asks@)),
            None => snapshot_spec(*j, id_key@, form) is None,
        },
{
    let m = Some(j);
    let id = match opt_u64(get_field(m, id_key)) {
        Some(v) => v,
        None => return None,
    };
    let bids = match side_levels(get_field(m, "bids"), form) {
        Some(v) => v,
        None => return None,
    };
    let asks = match side_levels(get_field(m, "asks"), form) {
        Some(v) => v,
        None => return None,
    };
    Some(DepthSnapshot { id, bids, asks })
}

} // verus!
