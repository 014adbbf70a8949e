//! JSON documents as `serde_json` reads them, and the reading of fields,
//! integers and decimals out of them.
use crate::decimal::{decimal_from_scientific, decimal_from_str, parse_decimal, parse_scientific, Dec};
use crate::text::{chars_of, owned};
use vstd::prelude::*;

verus! {

#[verifier::external_type_specification]
#[verifier::external_body]
pub struct ExJsonValue(serde_json::Value);

/// A JSON value. A number is kept as the text `serde_json` prints for it:
/// an integer as its decimal digits (after `-` when negative), a fraction in
/// its shortest form. An object keeps its members in the order `serde_json`
/// hands them out, each name once.
#[derive(Debug)]
pub enum Json {
    Null,
    Bool(bool),
    Number(String),
    Str(String),
    Array(Vec<Json>),
    Object(Vec<(String, Json)>),
}

/// What `serde_json::from_str::<serde_json::Value>` reads from the text, as a
/// `Json`; `None` where the text is not JSON.
pub uninterp spec fn json_of(text: Seq<char>) -> Option<Json>;

/// Calls `serde_json::from_str::<serde_json::Value>` and converts the value,
/// one variant for one variant (a number by its `Display` text).
#[verifier::external_body]
pub fn parse_json(text: &str) -> (r: Option<Json>)
    ensures
        r == json_of(text@),
{
    match serde_json::from_str::<serde_json::Value>(text) {
        Ok(v) => Some(json_from_value(v)),
        Err(_) => None,
    }
}

/// The conversion half of `parse_json`: one arm per variant of
/// `serde_json::Value`, the same on the elements and members.
#[verifier::external_body]
fn json_from_value(v: serde_json::Value) -> Json {
    match v {
        serde_json::Value::Null => Json::Null,
        serde_json::Value::Bool(b) => Json::Bool(b),
        serde_json::Value::Number(n) => Json::Number(n.to_string()),
        serde_json::Value::String(s) => Json::Str(s),
        serde_json::Value::Array(a) => Json::Array(a.into_iter().map(json_from_value).collect()),
        serde_json::Value::Object(o) => Json::Object(o.into_iter().map(|(k, x)| (k, json_from_value(x))).collect()),
    }
}

/// The value of the first member named `k`.
pub open spec fn member(ps: Seq<(String, Json)>, k: Seq<char>) -> Option<Json>
    decreases ps.len(),
{
    if ps.len() == 0 {
        None
    } else if ps[0].0@ == k {
        Some(ps[0].1)
    } else {
        member(ps.drop_first(), k)
    }
}

/// The member `k` of an object; `None` for a missing member or a value that is
/// not an object (as indexing a `serde_json::Value` gives `Null` there).
pub open spec fn json_field(j: Json, k: Seq<char>) -> Option<Json> {
    match j {
        Json::Object(ps) => member(ps@, k),
        _ => None,
    }
}

/// `json_field` on a value that may be missing.
pub open spec fn opt_field(o: Option<Json>, k: Seq<char>) -> Option<Json> {
    match o {
        Some(j) => json_field(j, k),
        None => None,
    }
}

/// The text of a string value (`Value::as_str`).
pub open spec fn json_text(o: Option<Json>) -> Option<Seq<char>> {
    match o {
        Some(Json::Str(s)) => Some(s@),
        _ => None,
    }
}

/// A boolean value (`Value::as_bool`).
pub open spec fn json_bool(o: Option<Json>) -> Option<bool> {
    match o {
        Some(Json::Bool(b)) => Some(b),
        _ => None,
    }
}

pub open spec fn is_digit(c: char) -> bool {
    '0' <= c && c <= '9'
}

pub open spec fn all_digits(t: Seq<char>) -> bool {
    forall|i: int| 0 <= i < t.len() ==> is_digit(#[trigger] t[i])
}

/// The number that decimal digits write.
pub open spec fn digits_value(t: Seq<char>) -> nat
    decreases t.len(),
{
    if t.len() == 0 {
        0
    } else {
        digits_value(t.drop_last()) * 10 + ((t.last() as int - '0' as int) as nat)
    }
}

/// The number written by one or more decimal digits, when it is at most
/// `limit`.
pub open spec fn natural_text(t: Seq<char>, limit: nat) -> Option<nat> {
    if t.len() > 0 && all_digits(t) && digits_value(t) <= limit {
        Some(digits_value(t))
    } else {
        None
    }
}

/// A number value that is a `u64` (`Value::as_u64`): its text is plain digits
/// within range.
pub open spec fn json_u64(o: Option<Json>) -> Option<u64> {
    match o {
        Some(Json::Number(t)) => match natural_text(t@, u64::MAX as nat) {
            Some(v) => Some(v as u64),
            None => None,
        },
        _ => None,
    }
}

/// A number value that is an `i64` (`Value::as_i64`): plain digits, after `-`
/// when negative, within range.
pub open spec fn json_i64(o: Option<Json>) -> Option<i64> {
    match o {
        Some(Json::Number(t)) => if t@.len() > 0 && t@[0] == '-' {
            match natural_text(t@.drop_first(), 0x8000_0000_0000_0000nat) {
                Some(v) => Some((-v) as i64),
                None => None,
            }
        } else {
            match natural_text(t@, i64::MAX as nat) {
                Some(v) => Some(v as i64),
                None => None,
            }
        },
        _ => None,
    }
}

/// What `Decimal`'s deserializer reads from text: the plain form, else the
/// scientific one.
pub open spec fn decimal_text(t: Seq<char>) -> Option<Dec> {
    match decimal_from_str(t) {
        Some(d) => Some(d),
        None => decimal_from_scientific(t),
    }
}

/// A decimal given as a string or a number. A fractional number is read from
/// its shortest text, which gives the value that `Decimal`'s deserializer
/// gives except for a magnitude below `1e-28` written with an exponent, which
/// is refused here.
pub open spec fn json_decimal(j: Json) -> Option<Dec> {
    match j {
        Json::Str(t) => decimal_text(t@),
        Json::Number(t) => decimal_text(t@),
        _ => None,
    }
}

/// The member `k` of an object.
pub fn field<'a>(j: &'a Json, k: &str) -> (r: Option<&'a Json>)
    ensures
        match r {
            Some(x) => json_field(*j, k@) == Some(*x),
            None => json_field(*j, k@) is None,
        },
{
    match j {
        Json::Object(ps) => {
            let mut i: usize = 0;
            assert(json_field(*j, k@) == member(ps@, k@));
            assert(ps@.skip(0) =~= ps@);
            while i < ps.len()
                invariant
                    i <= ps@.len(),
                    json_field(*j, k@) == member(ps@, k@),
                    member(ps@, k@) == member(ps@.skip(i as int), k@),
                decreases ps@.len() - i,
            {
                proof {
                    assert(ps@.skip(i as int).drop_first() =~= ps@.skip(i as int + 1));
                }
                if text_eq(ps[i].0.as_str(), k) {
                    proof {
                        let rest = ps@.skip(i as int);
                        assert(rest[0] == ps@[i as int]);
                        assert(rest[0].0@ == k@);
                        assert(member(rest, k@) == Some(rest[0].1));
                    }
                    return Some(&ps[i].1);
                }
                i = i + 1;
            }
            assert(ps@.skip(i as int).len() == 0);
            None
        },
        _ => None,
    }
}

/// The text of a string value.
pub fn text_value(j: &Json) -> (r: Option<String>)
    ensures
        match r {
            Some(t) => json_text(Some(*j)) == Some(t@),
            None => json_text(Some(*j)) is None,
        },
{
    match j {
        Json::Str(t) => Some(owned(t.as_str())),
        _ => None,
    }
}

/// The number written by the digits of `cs` from `start` on, when there is at
/// least one, all are digits, and the number is at most `limit`.
fn natural_value(cs: &Vec<char>, start: usize, limit: u64) -> (r: Option<u64>)
    requires
        start <= cs@.len(),
    ensures
        match natural_text(cs@.skip(start as int), limit as nat) {
            Some(v) => r == Some(v as u64),
            None => r is None,
        },
{
    let ghost t = cs@.skip(start as int);
    if start == cs.len() {
        return None;
    }
    let mut acc: u64 = 0;
    let mut big: bool = false;
    let mut i: usize = start;
    while i < cs.len()
        invariant
            t == cs@.skip(start as int),
            start < cs@.len(),
            start <= i <= cs@.len(),
            all_digits(cs@.subrange(start as int, i as int)),
            big ==> digits_value(cs@.subrange(start as int, i as int)) > limit,
            !big ==> acc == digits_value(cs@.subrange(start as int, i as int)) && acc <= limit,
        decreases cs@.len() - i,
    {
        let c = cs[i];
        let ghost before = cs@.subrange(start as int, i as int);
        let ghost after = cs@.subrange(start as int, i as int + 1);
        proof {
            assert(after.drop_last() =~= before);
            assert(after.last() == c);
        }
        if c < '0' || c > '9' {
            proof {
                assert(t[i - start] == c);
                assert(!is_digit(t[i - start]));
            }
            return None;
        }
        let d: u64 = (c as u32 - '0' as u32) as u64;
        proof {
            assert(digits_value(after) == digits_value(before) * 10 + d);
            assert forall|k: int| 0 <= k < after.len() implies is_digit(#[trigger] after[k]) by {
                if k < before.len() {
                    assert(after[k] == before[k]);
                }
            }
        }
        if !big {
            let nv: u128 = acc as u128 * 10 + d as u128;
            if nv > limit as u128 {
                big = true;
            } else {
                acc = nv as u64;
            }
        }
        i = i + 1;
    }
    proof {
        assert(cs@.subrange(start as int, cs@.len() as int) =~= t);
    }
    if big {
        None
    } else {
        Some(acc)
    }
}

/// A number value that is a `u64`.
pub fn u64_value(j: &Json) -> (r: Option<u64>)
    ensures
        r == json_u64(Some(*j)),
{
    match j {
        Json::Number(t) => {
            let cs = chars_of(t.as_str());
            proof {
                assert(cs@.skip(0) =~= cs@);
            }
            natural_value(&cs, 0, u64::MAX)
        },
        _ => None,
    }
}

/// A number value that is an `i64`.
pub fn i64_value(j: &Json) -> (r: Option<i64>)
    ensures
        r == json_i64(Some(*j)),
{
    match j {
        Json::Number(t) => {
            let cs = chars_of(t.as_str());
            if cs.len() > 0 && cs[0] == '-' {
                proof {
                    assert(cs@.skip(1) =~= cs@.drop_first());
                }
                match natural_value(&cs, 1, 0x8000_0000_0000_0000u64) {
                    Some(v) => if v == 0x8000_0000_0000_0000u64 {
                        Some(i64::MIN)
                    } else {
                        Some(-(v as i64))
                    },
                    None => None,
                }
            } else {
                proof {
                    assert(cs@.skip(0) =~= cs@);
                }
                match natural_value(&cs, 0, i64::MAX as u64) {
                    Some(v) => Some(v as i64),
                    None => None,
                }
            }
        },
        _ => None,
    }
}

/// A decimal given as text, read the way `Decimal`'s deserializer reads it.
pub fn decimal_of_text(t: &str) -> (r: Option<Dec>)
    ensures
        r == decimal_text(t@),
{
    match parse_decimal(t) {
        Some(d) => Some(d),
        None => parse_scientific(t),
    }
}

/// A decimal given as a string or a number.
pub fn decimal_value(j: &Json) -> (r: Option<Dec>)
    ensures
        r == json_decimal(*j),
{
    match j {
        Json::Str(t) => decimal_of_text(t.as_str()),
        Json::Number(t) => decimal_of_text(t.as_str()),
        _ => None,
    }
}

/// The member `k` of an object, when it is an `i64`.
pub fn i64_field(j: &Json, k: &str) -> (r: Option<i64>)
    ensures
        r == json_i64(json_field(*j, k@)),
{
    match field(j, k) {
        Some(x) => i64_value(x),
        None => None,
    }
}

/// Two texts are equal.
fn text_eq(a: &str, b: &str) -> (r: bool)
    ensures
        r == (a@ == b@),
{
    let x = chars_of(a);
    let y = chars_of(b);
    if x.len() != y.len() {
        return false;
    }
    let mut i: usize = 0;
    while i < x.len()
        invariant
            x@ == a@,
            y@ == b@,
            x@.len() == y@.len(),
            i <= x@.len(),
            forall|j: int| 0 <= j < i ==> x@[j] == y@[j],
        decreases x@.len() - i,
    {
        if x[i] != y[i] {
            return false;
        }
        i = i + 1;
    }
    assert(x@ =~= y@);
    true
}

} // verus!
