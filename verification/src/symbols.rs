//! Market symbols: the unified `BASE/QUOTE` (spot) and `BASE/QUOTE:SETTLE`
//! (future) forms, and each exchange's own spelling of them.
use crate::text::{
    after_last, after_last_spec, after_spec, before_spec, chars_of, contains_seq, first_index,
    has_char, lower_case, occurs_at, owned, push_char, push_str, remove_char, remove_char_spec,
    replace_char, replace_char_spec, string_of, to_lowercase, to_uppercase, upper_case,
};
use vstd::prelude::*;
use vstd::string::StrSliceExecFns;

verus! {

/// The part of `s` before the first `character` (all of `s` when there is none).
pub fn before(s: &str, character: char) -> (r: &str)
    ensures
        r@ == before_spec(s@, character),
{
    let cs = chars_of(s);
    let pos = first_index(&cs, character);
    if pos < cs.len() {
        s.substring_char(0, pos)
    } else {
        proof {
            assert(s@.take(s@.len() as int) =~= s@);
        }
        s
    }
}

pub open spec fn binance_symbol_spec(symbol: Seq<char>) -> Seq<char> {
    remove_char_spec(before_spec(symbol, ':'), '/') + seq!['@'] + if symbol.contains(':') {
        seq!['f', 'u', 't', 'u', 'r', 'e']
    } else {
        seq!['s', 'p', 'o', 't']
    }
}

/// Binance's stream name for a unified symbol: `BTC/USDT` becomes
/// `BTCUSDT@spot`, `BTC/USDT:USDT` becomes `BTCUSDT@future`.
pub fn binance_normalize_symbol(symbol: &str) -> (r: String)
    ensures
        r@ == binance_symbol_spec(symbol@),
{
    let cs = chars_of(symbol);
    let is_future = has_char(&cs, ':');
    let head = chars_of(before(symbol, ':'));
    let formatted = remove_char(&head, '/');
    let mut r = string_of(&formatted);
    push_char(&mut r, '@');
    if is_future {
        push_str(&mut r, "future");
        proof {
            reveal_strlit("future");
            assert(r@ =~= binance_symbol_spec(symbol@));
        }
    } else {
        push_str(&mut r, "spot");
        proof {
            reveal_strlit("spot");
            assert(r@ =~= binance_symbol_spec(symbol@));
        }
    }
    r
}

pub open spec fn gate_symbol_spec(symbol: Seq<char>) -> Seq<char> {
    replace_char_spec(before_spec(symbol, ':'), '/', '_')
}

/// Gate's name for a unified symbol: `BTC/USDT` and `BTC/USDT:USDT` both become
/// `BTC_USDT`.
pub fn gate_normalize_symbol(symbol: &str) -> (r: String)
    ensures
        r@ == gate_symbol_spec(symbol@),
{
    let head = chars_of(before(symbol, ':'));
    let formatted = replace_char(&head, '/', '_');
    string_of(&formatted)
}

pub open spec fn mexc_symbol_spec(symbol: Seq<char>) -> Seq<char> {
    upper_case(remove_char_spec(symbol, '/'))
}

/// Mexc's name for a unified symbol: the slashes dropped, upper-cased.
pub fn mexc_normalize_symbol(symbol: &str) -> (r: String)
    ensures
        r@ == mexc_symbol_spec(symbol@),
{
    let cs = chars_of(symbol);
    let formatted = string_of(&remove_char(&cs, '/'));
    to_uppercase(formatted.as_str())
}

/// `base + sep + quote`.
pub open spec fn joined(base: Seq<char>, sep: char, quote: Seq<char>) -> Seq<char> {
    base + seq![sep] + quote
}

/// The unified spot symbol `BASE/QUOTE`.
pub fn spot_symbol(base: &str, quote: &str) -> (r: String)
    ensures
        r@ == joined(base@, '/', quote@),
{
    let mut r = String::new();
    push_str(&mut r, base);
    push_char(&mut r, '/');
    push_str(&mut r, quote);
    proof {
        assert(r@ =~= joined(base@, '/', quote@));
    }
    r
}

/// The unified future symbol `BASE/QUOTE:SETTLE`.
pub fn future_symbol(base: &str, quote: &str, settle: &str) -> (r: String)
    ensures
        r@ == joined(joined(base@, '/', quote@), ':', settle@),
{
    let mut r = spot_symbol(base, quote);
    push_char(&mut r, ':');
    push_str(&mut r, settle);
    proof {
        assert(r@ =~= joined(joined(base@, '/', quote@), ':', settle@));
    }
    r
}

/// A Gate pair or contract name `BASE_QUOTE` split at its first `_` (the quote
/// is empty when there is no `_`).
pub fn gate_split_name(name: &str) -> (r: (String, String))
    ensures
        r.0@ == before_spec(name@, '_'),
        r.1@ == after_spec(name@, '_'),
{
    let cs = chars_of(name);
    let pos = first_index(&cs, '_');
    let mut base: Vec<char> = Vec::new();
    let mut i: usize = 0;
    while i < pos
        invariant
            pos <= cs@.len(),
            i <= pos,
            base@ =~= cs@.take(i as int),
        decreases pos - i,
    {
        base.push(cs[i]);
        i = i + 1;
    }
    let mut quote: Vec<char> = Vec::new();
    if pos < cs.len() {
        let mut i: usize = pos + 1;
        while i < cs.len()
            invariant
                pos < cs@.len(),
                pos + 1 <= i <= cs@.len(),
                quote@ =~= cs@.subrange(pos + 1, i as int),
            decreases cs@.len() - i,
        {
            quote.push(cs[i]);
            i = i + 1;
        }
        assert(cs@.skip(pos + 1) =~= cs@.subrange(pos + 1, cs@.len() as int));
    }
    (string_of(&base), string_of(&quote))
}

/// The channel prefix of Mexc's incremental depth stream.
pub open spec fn mexc_depth_prefix() -> Seq<char> {
    "spot@public.increase.depth.batch.v3.api.pb@"@
}

/// The symbol a Mexc depth channel is for: the part after its last `@`;
/// `None` when the channel is not a depth channel.
pub fn mexc_depth_channel_symbol(channel: &str) -> (r: Option<String>)
    ensures
        r is Some <==> exists|k: int| occurs_at(channel@, mexc_depth_prefix(), k),
        r matches Some(s) ==> s@ == after_last_spec(channel@, '@'),
{
    let cs = chars_of(channel);
    let prefix = chars_of("spot@public.increase.depth.batch.v3.api.pb@");
    if !contains_seq(&cs, &prefix) {
        return None;
    }
    let sym = after_last(&cs, '@');
    proof {
        let k = choose|k: int| occurs_at(cs@, prefix@, k);
        assert(occurs_at(channel@, mexc_depth_prefix(), k));
    }
    Some(string_of(&sym))
}

/// The channel of Mexc's private order stream starts the message's channel.
pub fn is_mexc_private_orders_channel(channel: &str) -> (r: bool)
    ensures
        r == ("spot@private.orders.v3.api.pb"@.len() <= channel@.len() && channel@.take(
            "spot@private.orders.v3.api.pb"@.len() as int,
        ) == "spot@private.orders.v3.api.pb"@),
{
    let cs = chars_of(channel);
    let p = chars_of("spot@private.orders.v3.api.pb");
    crate::text::starts_with(&cs, &p)
}


/// The Binance depth stream of a symbol: the symbol in lower case, then
/// `@depth@100ms`.
pub fn binance_depth_stream(symbol: &str) -> (r: String)
    ensures
        r@ == lower_case(symbol@) + "@depth@100ms"@,
{
    let mut r = to_lowercase(symbol);
    push_str(&mut r, "@depth@100ms");
    r
}

/// Order book channel of Gate for a market.
pub fn gate_book_channel(future: bool) -> (r: String)
    ensures
        r@ == (if future { "futures.order_book_update"@ } else { "spot.order_book_update"@ }),
{
    if future {
        owned("futures.order_book_update")
    } else {
        owned("spot.order_book_update")
    }
}

/// The Mexc incremental depth channel of a symbol.
pub fn mexc_depth_channel(symbol: &str) -> (r: String)
    ensures
        r@ == mexc_depth_prefix() + symbol@,
{
    let mut r = owned("spot@public.increase.depth.batch.v3.api.pb@");
    push_str(&mut r, symbol);
    r
}

} // verus!
