//! Character-level helpers on strings, stated over their `Seq<char>` views.
use vstd::prelude::*;
use vstd::string::StrSliceExecFns;

verus! {

/// What `str::to_uppercase` returns (Unicode case mapping).
pub uninterp spec fn upper_case(s: Seq<char>) -> Seq<char>;

/// What `str::to_lowercase` returns (Unicode case mapping).
pub uninterp spec fn lower_case(s: Seq<char>) -> Seq<char>;

/// Every character is ASCII.
pub open spec fn is_ascii_text(s: Seq<char>) -> bool {
    forall|i: int| 0 <= i < s.len() ==> (#[trigger] s[i] as u32) < 128
}

/// An ASCII letter in upper case, and every other character unchanged.
pub open spec fn ascii_upper_char(c: char) -> char {
    if 'a' <= c && c <= 'z' {
        ((c as u32) - 32) as char
    } else {
        c
    }
}

/// An ASCII letter in lower case, and every other character unchanged.
pub open spec fn ascii_lower_char(c: char) -> char {
    if 'A' <= c && c <= 'Z' {
        ((c as u32) + 32) as char
    } else {
        c
    }
}

pub open spec fn ascii_upper(s: Seq<char>) -> Seq<char> {
    s.map_values(|c: char| ascii_upper_char(c))
}

pub open spec fn ascii_lower(s: Seq<char>) -> Seq<char> {
    s.map_values(|c: char| ascii_lower_char(c))
}

/// Calls `str::to_uppercase`. Its result is a function of the text alone
/// (Unicode's case mapping, which is not written out here): it is named. On
/// ASCII text that mapping turns `a`..=`z` into `A`..=`Z` and keeps every other
/// character, one for one.
#[verifier::external_body]
pub(crate) fn to_uppercase(s: &str) -> (r: String)
    ensures
        r@ == upper_case(s@),
        is_ascii_text(s@) ==> r@ == ascii_upper(s@),
{
    s.to_uppercase()
}

/// Calls `str::to_lowercase`. Its result is a function of the text alone
/// (Unicode's case mapping, which is not written out here): it is named. On
/// ASCII text that mapping turns `A`..=`Z` into `a`..=`z` and keeps every other
/// character, one for one.
#[verifier::external_body]
pub(crate) fn to_lowercase(s: &str) -> (r: String)
    ensures
        r@ == lower_case(s@),
        is_ascii_text(s@) ==> r@ == ascii_lower(s@),
{
    s.to_lowercase()
}

/// Calls `String::push`, which appends one character.
#[verifier::external_body]
pub(crate) fn push_char(s: &mut String, c: char)
    ensures
        final(s)@ == old(s)@.push(c),
{
    s.push(c);
}

/// The characters of `s`.
pub fn chars_of(s: &str) -> (r: Vec<char>)
    ensures
        r@ == s@,
{
    let n = s.unicode_len();
    let mut r: Vec<char> = Vec::new();
    let mut i: usize = 0;
    while i < n
        invariant
            n == s@.len(),
            i <= n,
            r@ =~= s@.take(i as int),
        decreases n - i,
    {
        r.push(s.get_char(i));
        i = i + 1;
    }
    assert(s@.take(n as int) =~= s@);
    r
}

/// Appends the characters of `t` to `s`.
pub fn push_all(s: &mut String, t: &Vec<char>)
    ensures
        final(s)@ == old(s)@ + t@,
{
    let mut i: usize = 0;
    while i < t.len()
        invariant
            i <= t@.len(),
            s@ =~= old(s)@ + t@.take(i as int),
        decreases t@.len() - i,
    {
        push_char(s, t[i]);
        i = i + 1;
    }
    assert(t@.take(t@.len() as int) =~= t@);
}

/// Appends the characters of `t` to `s`.
pub fn push_str(s: &mut String, t: &str)
    ensures
        final(s)@ == old(s)@ + t@,
{
    let cs = chars_of(t);
    push_all(s, &cs);
}

/// A string holding the characters of `v`.
pub fn string_of(v: &Vec<char>) -> (r: String)
    ensures
        r@ == v@,
{
    let mut s = String::new();
    push_all(&mut s, v);
    s
}

/// A string holding the characters of `s`.
pub fn owned(s: &str) -> (r: String)
    ensures
        r@ == s@,
{
    let cs = chars_of(s);
    string_of(&cs)
}

/// `s` contains the character `c`.
pub fn has_char(s: &Vec<char>, c: char) -> (r: bool)
    ensures
        r == s@.contains(c),
{
    let mut i: usize = 0;
    while i < s.len()
        invariant
            i <= s@.len(),
            forall|j: int| 0 <= j < i ==> s@[j] != c,
        decreases s@.len() - i,
    {
        if s[i] == c {
            assert(s@[i as int] == c);
            return true;
        }
        i = i + 1;
    }
    false
}

/// The characters of `s` before the first `c` (all of `s` when there is none).
pub open spec fn before_spec(s: Seq<char>, c: char) -> Seq<char>
    decreases s.len(),
{
    if s.len() == 0 {
        s
    } else if s[0] == c {
        Seq::empty()
    } else {
        seq![s[0]] + before_spec(s.drop_first(), c)
    }
}

/// The characters of `s` after the first `c` (empty when there is none).
pub open spec fn after_spec(s: Seq<char>, c: char) -> Seq<char>
    decreases s.len(),
{
    if s.len() == 0 {
        s
    } else if s[0] == c {
        s.drop_first()
    } else {
        after_spec(s.drop_first(), c)
    }
}

/// Index of the first `c` in `s`, or `s.len()` when there is none.
pub open spec fn first_index_spec(s: Seq<char>, c: char) -> nat
    decreases s.len(),
{
    if s.len() == 0 {
        0
    } else if s[0] == c {
        0
    } else {
        1 + first_index_spec(s.drop_first(), c)
    }
}

proof fn lemma_first_index(s: Seq<char>, c: char)
    ensures
        first_index_spec(s, c) <= s.len(),
        before_spec(s, c) == s.take(first_index_spec(s, c) as int),
        forall|j: int| 0 <= j < first_index_spec(s, c) ==> s[j] != c,
        first_index_spec(s, c) < s.len() ==> s[first_index_spec(s, c) as int] == c,
        first_index_spec(s, c) < s.len() ==> after_spec(s, c) == s.skip(first_index_spec(s, c) as int + 1),
        first_index_spec(s, c) == s.len() ==> after_spec(s, c) == Seq::<char>::empty(),
    decreases s.len(),
{
    if s.len() > 0 && s[0] != c {
        let t = s.drop_first();
        lemma_first_index(t, c);
        assert(before_spec(s, c) =~= s.take(first_index_spec(s, c) as int));
        assert forall|j: int| 0 <= j < first_index_spec(s, c) implies s[j] != c by {
            if j > 0 {
                assert(s[j] == t[j - 1]);
            }
        }
        if first_index_spec(s, c) < s.len() {
            assert(s[first_index_spec(s, c) as int] == t[first_index_spec(t, c) as int]);
            assert(after_spec(s, c) =~= s.skip(first_index_spec(s, c) as int + 1));
        }
    } else if s.len() > 0 {
        assert(before_spec(s, c) =~= s.take(0));
    } else {
        assert(before_spec(s, c) =~= s.take(0));
    }
}

/// Position of the first `c` in `s`, or its length when there is none.
pub fn first_index(s: &Vec<char>, c: char) -> (r: usize)
    ensures
        r == first_index_spec(s@, c),
        r <= s@.len(),
        before_spec(s@, c) == s@.take(r as int),
        r < s@.len() ==> after_spec(s@, c) == s@.skip(r + 1),
        r == s@.len() ==> after_spec(s@, c) == Seq::<char>::empty(),
{
    proof {
        lemma_first_index(s@, c);
    }
    let mut i: usize = 0;
    while i < s.len()
        invariant
            i <= s@.len(),
            first_index_spec(s@, c) <= s@.len(),
            forall|j: int| 0 <= j < first_index_spec(s@, c) ==> s@[j] != c,
            first_index_spec(s@, c) < s@.len() ==> s@[first_index_spec(s@, c) as int] == c,
            i <= first_index_spec(s@, c),
        decreases s@.len() - i,
    {
        if s[i] == c {
            proof {
                lemma_first_index(s@, c);
            }
            return i;
        }
        i = i + 1;
    }
    proof {
        lemma_first_index(s@, c);
    }
    i
}

/// The test "is not `c`".
pub open spec fn not_char(c: char) -> spec_fn(char) -> bool {
    |x: char| x != c
}

/// `s` with every `c` removed.
pub open spec fn remove_char_spec(s: Seq<char>, c: char) -> Seq<char> {
    s.filter(not_char(c))
}

/// `s` with every `c` replaced by `d`.
pub open spec fn replace_char_spec(s: Seq<char>, c: char, d: char) -> Seq<char> {
    s.map_values(|x: char| if x == c { d } else { x })
}

/// `s` with every `c` removed (`str::replace(c, "")`).
pub fn remove_char(s: &Vec<char>, c: char) -> (r: Vec<char>)
    ensures
        r@ == remove_char_spec(s@, c),
{
    let mut r: Vec<char> = Vec::new();
    let mut i: usize = 0;
    while i < s.len()
        invariant
            i <= s@.len(),
            r@ == s@.take(i as int).filter(not_char(c)),
        decreases s@.len() - i,
    {
        proof {
            let t = s@.take(i as int + 1);
            assert(t.drop_last() =~= s@.take(i as int));
            assert(t.last() == s@[i as int]);
            reveal(Seq::filter);
        }
        if s[i] != c {
            r.push(s[i]);
        }
        i = i + 1;
    }
    assert(s@.take(s@.len() as int) =~= s@);
    r
}

/// `s` with every `c` replaced by `d` (`str::replace(c, d)`).
pub fn replace_char(s: &Vec<char>, c: char, d: char) -> (r: Vec<char>)
    ensures
        r@ == replace_char_spec(s@, c, d),
{
    let mut r: Vec<char> = Vec::new();
    let mut i: usize = 0;
    while i < s.len()
        invariant
            i <= s@.len(),
            r@ =~= s@.take(i as int).map_values(|x: char| if x == c { d } else { x }),
        decreases s@.len() - i,
    {
        if s[i] == c {
            r.push(d);
        } else {
            r.push(s[i]);
        }
        i = i + 1;
    }
    assert(s@.take(s@.len() as int) =~= s@);
    r
}

/// `s` starts with `p`.
pub fn starts_with(s: &Vec<char>, p: &Vec<char>) -> (r: bool)
    ensures
        r == (p@.len() <= s@.len() && s@.take(p@.len() as int) == p@),
{
    if p.len() > s.len() {
        return false;
    }
    let mut i: usize = 0;
    while i < p.len()
        invariant
            p@.len() <= s@.len(),
            i <= p@.len(),
            forall|j: int| 0 <= j < i ==> s@[j] == p@[j],
        decreases p@.len() - i,
    {
        if s[i] != p[i] {
            assert(s@.take(p@.len() as int)[i as int] != p@[i as int]);
            return false;
        }
        i = i + 1;
    }
    assert(s@.take(p@.len() as int) =~= p@);
    true
}

/// `p` occurs in `s` at position `k`.
pub open spec fn occurs_at(s: Seq<char>, p: Seq<char>, k: int) -> bool {
    0 <= k && k + p.len() <= s.len() && s.subrange(k, k + p.len()) == p
}

/// `s` contains `p` (`str::contains` with a string pattern).
pub fn contains_seq(s: &Vec<char>, p: &Vec<char>) -> (r: bool)
    ensures
        r == exists|k: int| occurs_at(s@, p@, k),
{
    let mut k: usize = 0;
    while k <= s.len() && p.len() <= s.len() - k
        invariant
            forall|j: int| 0 <= j < k ==> !occurs_at(s@, p@, j),
        decreases s@.len() - k,
    {
        let mut i: usize = 0;
        let mut same = true;
        while i < p.len()
            invariant
                k + p@.len() <= s@.len(),
                s@.len() == s.len(),
                i <= p@.len(),
                same == forall|j: int| 0 <= j < i ==> s@[k + j] == p@[j],
            decreases p@.len() - i,
        {
            if s[k + i] != p[i] {
                same = false;
            }
            i = i + 1;
        }
        if same {
            assert(s@.subrange(k as int, k + p@.len()) =~= p@);
            assert(occurs_at(s@, p@, k as int));
            return true;
        }
        assert(!occurs_at(s@, p@, k as int)) by {
            if occurs_at(s@, p@, k as int) {
                let j = choose|j: int| 0 <= j < p@.len() && s@[k + j] != p@[j];
                assert(s@.subrange(k as int, k + p@.len())[j] == s@[k + j]);
            }
        }
        k = k + 1;
    }
    assert forall|j: int| !occurs_at(s@, p@, j) by {
        if 0 <= j && j + p@.len() <= s@.len() {
            assert(j < k);
        }
    }
    false
}

/// The characters of `s` after its last `c` (all of `s` when there is none):
/// the first piece of `str::rsplit(c)`.
pub open spec fn after_last_spec(s: Seq<char>, c: char) -> Seq<char>
    decreases s.len(),
{
    if s.len() == 0 {
        s
    } else if s.last() == c {
        Seq::empty()
    } else {
        after_last_spec(s.drop_last(), c).push(s.last())
    }
}

/// The characters of `s` after its last `c`.
pub fn after_last(s: &Vec<char>, c: char) -> (r: Vec<char>)
    ensures
        r@ == after_last_spec(s@, c),
{
    let mut k: usize = s.len();
    proof {
        assert(s@.take(s@.len() as int) =~= s@);
        assert(s@.skip(s@.len() as int) =~= Seq::<char>::empty());
        assert(s@ + Seq::<char>::empty() =~= s@);
    }
    while k > 0 && s[k - 1] != c
        invariant
            k <= s@.len(),
            after_last_spec(s@, c) == after_last_spec(s@.take(k as int), c) + s@.skip(k as int),
        decreases k,
    {
        proof {
            let t = s@.take(k as int);
            assert(t.last() == s@[k - 1]);
            assert(t.drop_last() =~= s@.take(k - 1));
            assert(s@.skip(k - 1) =~= seq![s@[k - 1]] + s@.skip(k as int));
            assert(after_last_spec(t.drop_last(), c).push(t.last()) + s@.skip(k as int) =~= after_last_spec(
                t.drop_last(),
                c,
            ) + s@.skip(k - 1));
        }
        k = k - 1;
    }
    proof {
        if k > 0 {
            assert(s@.take(k as int).last() == s@[k - 1]);
        }
        assert(after_last_spec(s@.take(k as int), c) =~= Seq::<char>::empty());
    }
    let mut r: Vec<char> = Vec::new();
    let mut i: usize = k;
    while i < s.len()
        invariant
            k <= i <= s@.len(),
            r@ =~= s@.subrange(k as int, i as int),
        decreases s@.len() - i,
    {
        r.push(s[i]);
        i = i + 1;
    }
    proof {
        assert(s@.skip(k as int) =~= s@.subrange(k as int, s@.len() as int));
        assert(after_last_spec(s@, c) =~= s@.skip(k as int));
    }
    r
}

} // verus!
