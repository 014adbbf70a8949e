//! Signed requests to Mexc's private API: the parameters sorted by name, the
//! HMAC-SHA256 signature of their query string in hex, error classification,
//! and the fields of pushed private orders.
use crate::account::Order;
use crate::decimal::{decimal_from_str, parse_decimal, Dec};
use crate::text::{chars_of, owned, push_char, push_str};
use crate::json::{i64_field, json_field, json_i64, json_of, parse_json};
use hmac::Mac;
use vstd::prelude::*;

verus! {

/// Errors of exchange requests.
#[derive(Debug, Clone, PartialEq, Eq)]
pub enum ExchangeError {
    ApiError(String),
    JsonError(String),
    MissingCredentials,
    BadRequest(String),
    AuthenticationError(String),
    InvalidOrder(String),
}

/// Request parameters as (name, value) pairs.
pub open spec fn params_view(s: Seq<(String, String)>) -> Seq<(Seq<char>, Seq<char>)> {
    s.map_values(|p: (String, String)| (p.0@, p.1@))
}

/// `a` sorts strictly before `b` (lexicographic by character, which is the
/// order of `String`).
pub open spec fn text_lt(a: Seq<char>, b: Seq<char>) -> bool
    decreases a.len(),
{
    if a.len() == 0 {
        b.len() > 0
    } else if b.len() == 0 {
        false
    } else if a[0] != b[0] {
        (a[0] as u32) < (b[0] as u32)
    } else {
        text_lt(a.drop_first(), b.drop_first())
    }
}

/// Whether `a` sorts strictly before `b`.
pub fn less_text(a: &Vec<char>, b: &Vec<char>) -> (r: bool)
    ensures
        r == text_lt(a@, b@),
{
    let mut i: usize = 0;
    proof {
        assert(a@.skip(0) =~= a@);
        assert(b@.skip(0) =~= b@);
    }
    while i < a.len() && i < b.len() && a[i] == b[i]
        invariant
            i <= a@.len(),
            i <= b@.len(),
            text_lt(a@, b@) == text_lt(a@.skip(i as int), b@.skip(i as int)),
        decreases a@.len() - i,
    {
        proof {
            assert(a@.skip(i as int).drop_first() =~= a@.skip(i as int + 1));
            assert(b@.skip(i as int).drop_first() =~= b@.skip(i as int + 1));
        }
        i = i + 1;
    }
    proof {
        if i < a@.len() && i < b@.len() {
            assert(a@.skip(i as int)[0] == a@[i as int]);
            assert(b@.skip(i as int)[0] == b@[i as int]);
        }
    }
    if i == a.len() {
        i < b.len()
    } else if i == b.len() {
        false
    } else {
        (a[i] as u32) < (b[i] as u32)
    }
}

/// `(k, v)` inserted into pairs sorted by name, after every pair from the end
/// whose name does not sort after `k`.
pub open spec fn insert_param(s: Seq<(Seq<char>, Seq<char>)>, k: Seq<char>, v: Seq<char>) -> Seq<
    (Seq<char>, Seq<char>),
>
    decreases s.len(),
{
    if s.len() == 0 {
        seq![(k, v)]
    } else if !text_lt(k, s.last().0) {
        s.push((k, v))
    } else {
        insert_param(s.drop_last(), k, v).push(s.last())
    }
}

/// Pairs sorted by name (insertion sort).
pub open spec fn sort_params_spec(s: Seq<(Seq<char>, Seq<char>)>) -> Seq<(Seq<char>, Seq<char>)>
    decreases s.len(),
{
    if s.len() == 0 {
        s
    } else {
        insert_param(sort_params_spec(s.drop_last()), s.last().0, s.last().1)
    }
}

proof fn lemma_insert_param_at(s: Seq<(Seq<char>, Seq<char>)>, k: Seq<char>, v: Seq<char>, p: int)
    requires
        0 <= p <= s.len(),
        forall|i: int| p <= i < s.len() ==> text_lt(k, (#[trigger] s[i]).0),
        p == 0 || !text_lt(k, s[p - 1].0),
    ensures
        insert_param(s, k, v) == s.take(p).push((k, v)) + s.skip(p),
    decreases s.len(),
{
    if s.len() == 0 {
        assert(s.take(p).push((k, v)) + s.skip(p) =~= seq![(k, v)]);
    } else if p == s.len() {
        assert(s.take(p) =~= s);
        assert(s.take(p).push((k, v)) + s.skip(p) =~= s.push((k, v)));
    } else {
        let s2 = s.drop_last();
        assert(s.last() == s[s.len() - 1]);
        assert forall|i: int| p <= i < s2.len() implies text_lt(k, (#[trigger] s2[i]).0) by {
            assert(s2[i] == s[i]);
        }
        if p > 0 {
            assert(s2[p - 1] == s[p - 1]);
        }
        lemma_insert_param_at(s2, k, v, p);
        assert(s2.take(p).push((k, v)) + s2.skip(p) + seq![s.last()] =~= s.take(p).push((k, v)) + s.skip(p));
        assert(insert_param(s2, k, v).push(s.last()) =~= s2.take(p).push((k, v)) + s2.skip(p) + seq![
            s.last(),
        ]);
    }
}

/// The pairs sorted by name, as collecting them into a `BTreeMap` orders them.
pub fn sort_params(params: Vec<(String, String)>) -> (r: Vec<(String, String)>)
    ensures
        params_view(r@) == sort_params_spec(params_view(params@)),
{
    let ghost orig = params_view(params@);
    let mut rest = params;
    let mut out: Vec<(String, String)> = Vec::new();
    let ghost mut k: int = 0;
    while rest.len() > 0
        invariant
            0 <= k <= orig.len(),
            params_view(rest@) == orig.skip(k),
            params_view(out@) == sort_params_spec(orig.take(k)),
        decreases rest@.len(),
    {
        let ghost rest0 = rest@;
        let (name, value) = rest.remove(0);
        let name_chars = chars_of(name.as_str());
        let mut p: usize = out.len();
        while p > 0 && less_text(&name_chars, &chars_of(out[p - 1].0.as_str()))
            invariant
                p <= out@.len(),
                name_chars@ == name@,
                forall|i: int| p <= i < out@.len() ==> text_lt(name@, (#[trigger] params_view(out@)[i]).0),
            decreases p,
        {
            p = p - 1;
        }
        proof {
            assert(params_view(rest0).len() == rest0.len());
            assert(params_view(rest0)[0] == (name@, value@));
            assert(orig.skip(k)[0] == orig[k]);
            let ov = params_view(out@);
            assert forall|i: int| p <= i < ov.len() implies text_lt(name@, (#[trigger] ov[i]).0) by {
            }
            if p > 0 {
                assert(ov[p - 1].0 == out@[p - 1].0@);
            }
            lemma_insert_param_at(ov, name@, value@, p as int);
            let t = orig.take(k + 1);
            assert(t.drop_last() =~= orig.take(k));
            assert(t.last() == orig[k]);
        }
        let ghost ov0 = params_view(out@);
        out.insert(p, (name, value));
        proof {
            assert(params_view(out@) =~= ov0.take(p as int).push((name@, value@)) + ov0.skip(p as int));
            assert(rest@ =~= rest0.drop_first());
            assert(params_view(rest@) =~= params_view(rest0).drop_first());
            assert(orig.skip(k).drop_first() =~= orig.skip(k + 1));
            k = k + 1;
        }
    }
    proof {
        assert(orig.take(orig.len() as int) =~= orig);
    }
    out
}

/// `name=value` pairs joined by `&`.
pub open spec fn join_params_spec(s: Seq<(Seq<char>, Seq<char>)>) -> Seq<char>
    decreases s.len(),
{
    if s.len() == 0 {
        Seq::empty()
    } else if s.len() == 1 {
        s[0].0 + seq!['='] + s[0].1
    } else {
        join_params_spec(s.drop_last()) + seq!['&'] + s.last().0 + seq!['='] + s.last().1
    }
}

/// The query string `name=value&name=value...` of the pairs in order.
pub fn join_params(params: &Vec<(String, String)>) -> (r: String)
    ensures
        r@ == join_params_spec(params_view(params@)),
{
    let ghost pv = params_view(params@);
    let mut r = String::new();
    let mut i: usize = 0;
    while i < params.len()
        invariant
            pv == params_view(params@),
            i <= params@.len(),
            r@ == join_params_spec(pv.take(i as int)),
        decreases params@.len() - i,
    {
        proof {
            let t = pv.take(i as int + 1);
            assert(t.drop_last() =~= pv.take(i as int));
            assert(t.last() == pv[i as int]);
            assert(pv[i as int] == (params@[i as int].0@, params@[i as int].1@));
        }
        if i > 0 {
            push_char(&mut r, '&');
        }
        push_str(&mut r, params[i].0.as_str());
        push_char(&mut r, '=');
        push_str(&mut r, params[i].1.as_str());
        proof {
            let t = pv.take(i as int + 1);
            if i == 0 {
                assert(r@ =~= join_params_spec(t));
            } else {
                assert(r@ =~= join_params_spec(t));
            }
        }
        i = i + 1;
    }
    proof {
        assert(pv.take(params@.len() as int) =~= pv);
    }
    r
}

/// The two lowercase hex digits of each byte.
pub open spec fn hex_digit(n: int) -> char {
    if n < 10 {
        ((n + 48) as u8) as char
    } else {
        ((n + 87) as u8) as char
    }
}

pub open spec fn hex_spec(bytes: Seq<u8>) -> Seq<char>
    decreases bytes.len(),
{
    if bytes.len() == 0 {
        Seq::empty()
    } else {
        hex_spec(bytes.drop_last()) + seq![hex_digit(bytes.last() as int / 16), hex_digit(bytes.last() as int % 16)]
    }
}

/// Calls `hex::encode`: two lowercase hex digits per byte, high nibble first.
#[verifier::external_body]
pub(crate) fn hex_encode(bytes: &Vec<u8>) -> (r: String)
    ensures
        r@ == hex_spec(bytes@),
{
    hex::encode(bytes)
}

/// What HMAC-SHA256 keyed with the UTF-8 bytes of `key` gives on the UTF-8
/// bytes of `message`.
pub uninterp spec fn hmac_sha256(key: Seq<char>, message: Seq<char>) -> Seq<u8>;

/// Calls `Hmac::<Sha256>::new_from_slice` on the key's bytes, then `update`
/// with the message's bytes and `finalize`. The source of `hmac` shows that
/// keying accepts a key of any length (a long key is hashed first), so the call
/// always succeeds, and the tag has SHA-256's 32 bytes.
#[verifier::external_body]
pub(crate) fn hmac_sha256_tag(key: &str, message: &str) -> (r: Result<Vec<u8>, String>)
    ensures
        (match r {
            Ok(t) => t@ == hmac_sha256(key@, message@) && t@.len() == 32,
            Err(_) => false,
        }),
{
    match hmac::Hmac::<sha2::Sha256>::new_from_slice(key.as_bytes()) {
        Ok(mut mac) => {
            mac.update(message.as_bytes());
            Ok(mac.finalize().into_bytes().to_vec())
        },
        Err(e) => Err(e.to_string()),
    }
}

/// Two hex digits stand for each byte.
pub proof fn lemma_hex_len(bytes: Seq<u8>)
    ensures
        hex_spec(bytes).len() == 2 * bytes.len(),
    decreases bytes.len(),
{
    if bytes.len() > 0 {
        lemma_hex_len(bytes.drop_last());
    }
}

/// Position of the parameter named `k`, if present.
pub open spec fn param_index(s: Seq<(Seq<char>, Seq<char>)>, k: Seq<char>) -> Option<int> {
    if exists|i: int| 0 <= i < s.len() && (#[trigger] s[i]).0 == k {
        Some(choose|i: int| 0 <= i < s.len() && (#[trigger] s[i]).0 == k)
    } else {
        None
    }
}

/// No parameter name occurs twice.
pub open spec fn names_unique(s: Seq<(Seq<char>, Seq<char>)>) -> bool {
    forall|i: int, j: int| 0 <= i < j < s.len() ==> (#[trigger] s[i]).0 != (#[trigger] s[j]).0
}

/// The parameters with `k` set to `v` (appended when absent), as inserting
/// into a map does.
pub open spec fn set_param(s: Seq<(Seq<char>, Seq<char>)>, k: Seq<char>, v: Seq<char>) -> Seq<(Seq<char>, Seq<char>)> {
    match param_index(s, k) {
        Some(i) => s.update(i, (k, v)),
        None => s.push((k, v)),
    }
}

/// The pairs inserted one after another into an empty map.
pub open spec fn params_map_spec(s: Seq<(Seq<char>, Seq<char>)>) -> Seq<(Seq<char>, Seq<char>)>
    decreases s.len(),
{
    if s.len() == 0 {
        s
    } else {
        set_param(params_map_spec(s.drop_last()), s.last().0, s.last().1)
    }
}

fn put_param(s: &mut Vec<(String, String)>, key: String, value: String)
    requires
        names_unique(params_view(old(s)@)),
    ensures
        names_unique(params_view(final(s)@)),
        params_view(final(s)@) == set_param(params_view(old(s)@), key@, value@),
{
    let ghost v0 = params_view(s@);
    let mut i: usize = 0;
    while i < s.len()
        invariant
            v0 == params_view(s@),
            s@ == old(s)@,
            names_unique(v0),
            i <= s@.len(),
            forall|j: int| 0 <= j < i ==> (#[trigger] v0[j]).0 != key@,
        decreases s@.len() - i,
    {
        if s[i].0 == key {
            proof {
                assert(v0[i as int].0 == key@);
                let c = choose|j: int| 0 <= j < v0.len() && (#[trigger] v0[j]).0 == key@;
                if c != i {
                    if c < i {
                        assert(v0[c].0 != key@);
                    } else {
                        assert(v0[i as int].0 != v0[c].0);
                    }
                }
                assert(param_index(v0, key@) == Some(i as int));
            }
            let k = s[i].0.clone();
            s.set(i, (k, value));
            proof {
                assert(params_view(s@) =~= v0.update(i as int, (key@, value@)));
                let v1 = params_view(s@);
                assert forall|a: int, b: int| 0 <= a < b < v1.len() implies (#[trigger] v1[a]).0 != (#[trigger] v1[b]).0 by {
                    assert(v1[a].0 == v0[a].0 && v1[b].0 == v0[b].0);
                }
            }
            return ;
        }
        i = i + 1;
    }
    proof {
        assert forall|j: int| 0 <= j < v0.len() implies (#[trigger] v0[j]).0 != key@ by {}
    }
    s.push((key, value));
    proof {
        let v1 = params_view(s@);
        assert(v1 =~= v0.push((key@, value@)));
        assert forall|a: int, b: int| 0 <= a < b < v1.len() implies (#[trigger] v1[a]).0 != (#[trigger] v1[b]).0 by {
            if b == v1.len() - 1 {
                assert(v1[a] == v0[a]);
            } else {
                assert(v1[a] == v0[a] && v1[b] == v0[b]);
            }
        }
    }
}

fn copy_params(s: &Vec<(String, String)>) -> (r: Vec<(String, String)>)
    ensures
        r@ == s@,
{
    let mut r: Vec<(String, String)> = Vec::new();
    let mut i: usize = 0;
    while i < s.len()
        invariant
            i <= s@.len(),
            r@ =~= s@.take(i as int),
        decreases s@.len() - i,
    {
        r.push((s[i].0.clone(), s[i].1.clone()));
        i = i + 1;
    }
    assert(s@.take(s@.len() as int) =~= s@);
    r
}

/// The decimal digits of `n`, most significant first, without leading zeros.
pub open spec fn digits_text(n: nat) -> Seq<char>
    decreases n,
{
    if n < 10 {
        seq![hex_digit(n as int)]
    } else {
        digits_text(n / 10).push(hex_digit((n % 10) as int))
    }
}

/// The text of an `i64`: its decimal digits, after `-` when it is negative.
pub open spec fn i64_text(n: i64) -> Seq<char> {
    if n < 0 {
        seq!['-'] + digits_text((-n) as nat)
    } else {
        digits_text(n as nat)
    }
}

/// Calls `i64::to_string`, which writes the number in decimal, with a leading
/// `-` for negatives.
#[verifier::external_body]
pub(crate) fn i64_to_string(n: i64) -> (r: String)
    ensures
        r@ == i64_text(n),
{
    n.to_string()
}

/// The signature of a request: HMAC-SHA256 of the sorted query of the
/// parameters, keyed with the secret, as 64 lowercase hex digits.
pub fn sign_request(secret: Option<&str>, sorted: &Vec<(String, String)>) -> (r: Result<String, ExchangeError>)
    ensures
        match secret {
            None => r == Err::<String, ExchangeError>(ExchangeError::MissingCredentials),
            Some(sec) => r matches Ok(h) && h@ == hex_spec(
                hmac_sha256(sec@, join_params_spec(params_view(sorted@))),
            ) && h@.len() == 64,
        },
{
    let sec = match secret {
        None => return Err(ExchangeError::MissingCredentials),
        Some(s) => s,
    };
    let prehash = join_params(sorted);
    match hmac_sha256_tag(sec, prehash.as_str()) {
        Err(e) => Err(ExchangeError::ApiError(e)),
        Ok(tag) => {
            let h = hex_encode(&tag);
            proof {
                lemma_hex_len(tag@);
            }
            Ok(h)
        },
    }
}

/// The parameters of a signed request before signing: the caller's, then
/// `recvWindow=10000` and `timestamp`, one value per name.
pub open spec fn base_params(params: Seq<(Seq<char>, Seq<char>)>, timestamp: i64) -> Seq<(Seq<char>, Seq<char>)> {
    set_param(
        set_param(params_map_spec(params), "recvWindow"@, "10000"@),
        "timestamp"@,
        i64_text(timestamp),
    )
}

/// The query string of a signed Mexc request: the parameters with
/// `recvWindow=10000` and `timestamp` added, sorted by name and signed; the
/// signature (HMAC-SHA256 of the sorted query with the secret, in hex) is then
/// added as `signature` and the parameters are sorted again. Both credentials
/// must be present. For a repeated name the last value counts.
pub fn signed_query(
    params: Vec<(String, String)>,
    timestamp: i64,
    secret: Option<&str>,
    api_key: Option<&str>,
) -> (r: Result<String, ExchangeError>)
    ensures
        match secret {
            None => r == Err::<String, ExchangeError>(ExchangeError::MissingCredentials),
            Some(sec) => {
                let base = base_params(params_view(params@), timestamp);
                let tag = hmac_sha256(sec@, join_params_spec(sort_params_spec(base)));
                match api_key {
                    None => r == Err::<String, ExchangeError>(ExchangeError::MissingCredentials),
                    Some(_) => r matches Ok(q) && q@ == join_params_spec(
                        sort_params_spec(set_param(base, "signature"@, hex_spec(tag))),
                    ),
                }
            },
        },
{
    let ghost pv = params_view(params@);
    let mut unique: Vec<(String, String)> = Vec::new();
    proof {
        assert(params_view(unique@) =~= params_map_spec(pv.take(0)));
    }
    let mut k: usize = 0;
    while k < params.len()
        invariant
            pv == params_view(params@),
            k <= params@.len(),
            names_unique(params_view(unique@)),
            params_view(unique@) == params_map_spec(pv.take(k as int)),
        decreases params@.len() - k,
    {
        proof {
            let t = pv.take(k as int + 1);
            assert(t.drop_last() =~= pv.take(k as int));
            assert(t.last() == pv[k as int]);
        }
        put_param(&mut unique, params[k].0.clone(), params[k].1.clone());
        k = k + 1;
    }
    proof {
        assert(pv.take(params@.len() as int) =~= pv);
    }
    put_param(&mut unique, owned("recvWindow"), owned("10000"));
    put_param(&mut unique, owned("timestamp"), i64_to_string(timestamp));
    let sorted = sort_params(copy_params(&unique));
    let signature = match sign_request(secret, &sorted) {
        Ok(s) => s,
        Err(e) => return Err(e),
    };
    if api_key.is_none() {
        return Err(ExchangeError::MissingCredentials);
    }
    put_param(&mut unique, owned("signature"), signature);
    let resorted = sort_params(unique);
    Ok(join_params(&resorted))
}

/// The error code in the body of a failed response: its JSON `code` member,
/// when the body is JSON and the member an `i64`.
pub fn error_code_of_text(text: &str) -> (r: Option<i64>)
    ensures
        r == match json_of(text@) {
            Some(j) => json_i64(json_field(j, "code"@)),
            None => None,
        },
{
    match parse_json(text) {
        Some(j) => i64_field(&j, "code"),
        None => None,
    }
}

/// The error for a failed API response with JSON error `code` (if any) and
/// the text `message`: codes 10000-19999 are bad requests, 20000-29999
/// authentication errors, 30000-39999 invalid orders, anything else a general
/// API error.
pub open spec fn classify_spec(code: Option<i64>, message: String) -> ExchangeError {
    match code {
        Some(c) => if 10000 <= c <= 19999 {
            ExchangeError::BadRequest(message)
        } else if 20000 <= c <= 29999 {
            ExchangeError::AuthenticationError(message)
        } else if 30000 <= c <= 39999 {
            ExchangeError::InvalidOrder(message)
        } else {
            ExchangeError::ApiError(message)
        },
        None => ExchangeError::ApiError(message),
    }
}

/// Classifies a failed API response by its error code.
pub fn classify_api_error(code: Option<i64>, message: String) -> (r: ExchangeError)
    ensures
        r == classify_spec(code, message),
{
    match code {
        Some(c) => if 10000 <= c && c <= 19999 {
            ExchangeError::BadRequest(message)
        } else if 20000 <= c && c <= 29999 {
            ExchangeError::AuthenticationError(message)
        } else if 30000 <= c && c <= 39999 {
            ExchangeError::InvalidOrder(message)
        } else {
            ExchangeError::ApiError(message)
        },
        None => ExchangeError::ApiError(message),
    }
}

/// The start of the window of recent orders: the server's now (local time plus
/// the clock offset) minus `last_ms` (taken as an `i64`, as `as` casts it);
/// an error when that underflows.
pub fn orders_start_time(now_ms: i64, offset_ms: i64, last_ms: u128) -> (r: Result<i64, ExchangeError>)
    requires
        i64::MIN <= now_ms + offset_ms <= i64::MAX,
    ensures
        ({
            let start = now_ms + offset_ms;
            let back = last_ms as i64;
            if i64::MIN <= start - back <= i64::MAX {
                r == Ok::<i64, ExchangeError>((start - back) as i64)
            } else {
                r matches Err(ExchangeError::ApiError(m)) && m@ == "Duration is too long"@
            }
        }),
{
    let start = now_ms + offset_ms;
    #[verifier::truncate]
    let back = last_ms as i64;
    match start.checked_sub(back) {
        Some(v) => Ok(v),
        None => Err(ExchangeError::ApiError(owned("Duration is too long"))),
    }
}

/// The order pushed on Mexc's private stream, from its protobuf fields: trade
/// type 1 is a buy, anything else a sell; status 1 and 2 are open, 3 filled,
/// 4 canceled, anything else unknown; an amount that does not parse counts as
/// zero. `filled` takes the remaining quantity and `remaning` the cumulative
/// one, as the stream is read. `None` where the price or a quantity does not
/// parse.
pub fn order_from_push(
    id: String,
    amount: &str,
    price: &str,
    trade_type: i32,
    status: i32,
    symbol: String,
    remain_quantity: &str,
    cumulative_quantity: &str,
) -> (r: Option<Order>)
    ensures
        r is Some <==> (decimal_from_str(price@) is Some && decimal_from_str(remain_quantity@) is Some
            && decimal_from_str(cumulative_quantity@) is Some),
        r matches Some(o) ==> {
            &&& o.id == id
            &&& o.symbol == symbol
            &&& o.amount == (match decimal_from_str(amount@) {
                Some(a) => a,
                None => Dec::parts(0, 0),
            })
            &&& o.price == decimal_from_str(price@)->0
            &&& o.side@ == (if trade_type == 1 { "buy"@ } else { "sell"@ })
            &&& o.status@ == (if status == 1 || status == 2 {
                "open"@
            } else if status == 3 {
                "filled"@
            } else if status == 4 {
                "canceled"@
            } else {
                "unknown"@
            })
            &&& o.timestamp == 0
            &&& o.filled == decimal_from_str(remain_quantity@)->0
            &&& o.remaning == decimal_from_str(cumulative_quantity@)->0
        },
{
    let amount = match parse_decimal(amount) {
        Some(a) => a,
        None => Dec::zero(),
    };
    let price = match parse_decimal(price) {
        Some(p) => p,
        None => return None,
    };
    let filled = match parse_decimal(remain_quantity) {
        Some(v) => v,
        None => return None,
    };
    let remaning = match parse_decimal(cumulative_quantity) {
        Some(v) => v,
        None => return None,
    };
    let side = if trade_type == 1 {
        owned("buy")
    } else {
        owned("sell")
    };
    let status = if status == 1 || status == 2 {
        owned("open")
    } else if status == 3 {
        owned("filled")
    } else if status == 4 {
        owned("canceled")
    } else {
        owned("unknown")
    };
    Some(Order { id, symbol, side, amount, price, status, timestamp: 0, filled, remaning })
}

} // verus!
