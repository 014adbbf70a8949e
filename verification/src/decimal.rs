//! Fixed-point decimal numbers, held as the plain parts of a `rust_decimal::Decimal`:
//! a signed 96-bit mantissa and a base-10 scale between 0 and 28.
//!
//! The arithmetic itself is done by `rust_decimal`; the wrappers below convert the
//! parts to a `Decimal`, make one call and convert the result back.
use vstd::prelude::*;
use vstd::std_specs::cmp::PartialEqSpecImpl;

verus! {

/// Largest mantissa magnitude that a decimal can hold (96 bits).
pub const MAX_MANTISSA: i128 = 0x0000_0000_FFFF_FFFF_FFFF_FFFF_FFFF_FFFF;

/// Largest scale that a decimal can hold.
pub const MAX_SCALE: u32 = 28;

/// `10^n`.
pub open spec fn pow10(n: nat) -> int
    decreases n,
{
    if n == 0 {
        1
    } else {
        10 * pow10((n - 1) as nat)
    }
}

pub proof fn lemma_pow10_positive(n: nat)
    ensures
        pow10(n) >= 1,
    decreases n,
{
    if n > 0 {
        lemma_pow10_positive((n - 1) as nat);
    }
}

/// A decimal number `mantissa * 10^(-scale)`.
#[derive(Clone, Copy, Debug)]
pub struct Dec {
    mantissa: i128,
    scale: u32,
}

impl Dec {
    #[verifier::type_invariant]
    spec fn inv(self) -> bool {
        &&& -MAX_MANTISSA <= self.mantissa <= MAX_MANTISSA
        &&& self.scale <= MAX_SCALE
    }

    /// The signed mantissa.
    pub closed spec fn mant(self) -> int {
        self.mantissa as int
    }

    /// The scale (number of decimal places).
    pub closed spec fn scl(self) -> nat {
        self.scale as nat
    }

    /// Whether the parts are those of a decimal that can exist.
    pub open spec fn wf(self) -> bool {
        &&& -MAX_MANTISSA <= self.mant() <= MAX_MANTISSA
        &&& self.scl() <= MAX_SCALE
    }

    /// The exact value, multiplied by `10^28` so that it is an integer.
    pub open spec fn val(self) -> int {
        self.mant() * pow10((MAX_SCALE - self.scl()) as nat)
    }

    pub open spec fn is_zero_spec(self) -> bool {
        self.mant() == 0
    }

    /// The decimal with the given parts.
    pub closed spec fn parts(m: int, s: nat) -> Dec {
        Dec { mantissa: m as i128, scale: s as u32 }
    }

    pub proof fn lemma_parts(m: int, s: nat)
        requires
            -MAX_MANTISSA <= m <= MAX_MANTISSA,
            s <= MAX_SCALE,
        ensures
            Dec::parts(m, s).mant() == m,
            Dec::parts(m, s).scl() == s,
    {
    }

    /// A zero mantissa is the value zero, whatever the scale.
    pub proof fn lemma_zero_parts(s: nat)
        ensures
            Dec::parts(0, s).mant() == 0,
            Dec::parts(0, s).val() == 0,
    {
        let d = Dec::parts(0, s);
        let p = pow10((MAX_SCALE - d.scl()) as nat);
        assert(d.mant() * p == 0) by (nonlinear_arith)
            requires
                d.mant() == 0,
        ;
    }

    /// Like `Decimal::new`: the number `num * 10^(-scale)`.
    pub fn new(num: i64, scale: u32) -> (r: Dec)
        requires
            scale <= MAX_SCALE,
        ensures
            r.mant() == num,
            r.scl() == scale,
            r == Dec::parts(num as int, scale as nat),
    {
        Dec { mantissa: num as i128, scale }
    }

    /// Like `Decimal::try_from_i128_with_scale`: `None` when the parts are out of range.
    pub fn try_from_i128_with_scale(num: i128, scale: u32) -> (r: Option<Dec>)
        ensures
            r is Some <==> (-MAX_MANTISSA <= num <= MAX_MANTISSA && scale <= MAX_SCALE),
            r matches Some(d) ==> d.mant() == num && d.scl() == scale,
    {
        if scale > MAX_SCALE || num > MAX_MANTISSA || num < -MAX_MANTISSA {
            None
        } else {
            Some(Dec { mantissa: num, scale })
        }
    }

    pub fn zero() -> (r: Dec)
        ensures
            r.mant() == 0,
            r.scl() == 0,
            r.val() == 0,
            r == Dec::parts(0, 0),
    {
        Dec { mantissa: 0, scale: 0 }
    }

    pub fn mantissa(&self) -> (r: i128)
        ensures
            r == self.mant(),
    {
        self.mantissa
    }

    pub fn scale(&self) -> (r: u32)
        ensures
            r == self.scl(),
    {
        self.scale
    }

    pub fn is_zero(&self) -> (r: bool)
        ensures
            r == self.is_zero_spec(),
            r == (self.val() == 0),
    {
        proof {
            lemma_pow10_positive((MAX_SCALE - self.scl()) as nat);
            lemma_mul_zero_iff(self.mant(), pow10((MAX_SCALE - self.scl()) as nat));
        }
        self.mantissa == 0
    }
}

pub proof fn lemma_mul_zero_iff(a: int, p: int)
    requires
        p >= 1,
    ensures
        (a * p == 0) <==> (a == 0),
        (a * p < 0) <==> (a < 0),
        (a * p > 0) <==> (a > 0),
{
    if a > 0 {
        assert(a * p > 0) by (nonlinear_arith)
            requires
                a > 0,
                p >= 1,
        ;
    } else if a < 0 {
        assert(a * p < 0) by (nonlinear_arith)
            requires
                a < 0,
                p >= 1,
        ;
    }
}

/// What `Decimal::checked_add` returns on two nonzero decimals.
pub uninterp spec fn decimal_sum(a: Dec, b: Dec) -> Option<Dec>;

/// What `Decimal::checked_sub` returns when the subtrahend is nonzero.
pub uninterp spec fn decimal_difference(a: Dec, b: Dec) -> Option<Dec>;

/// What `Decimal::checked_mul` returns on two nonzero decimals.
pub uninterp spec fn decimal_product(a: Dec, b: Dec) -> Option<Dec>;

/// What `Decimal::checked_div` returns on a nonzero dividend and divisor.
pub uninterp spec fn decimal_quotient(a: Dec, b: Dec) -> Option<Dec>;

/// What `Decimal::checked_add` returns: a zero operand gives the other one
/// back unchanged (the right one when both are zero).
pub open spec fn decimal_checked_add(a: Dec, b: Dec) -> Option<Dec> {
    if a.mant() == 0 {
        Some(b)
    } else if b.mant() == 0 {
        Some(a)
    } else {
        decimal_sum(a, b)
    }
}

/// What `Decimal::checked_sub` returns: from zero, the right operand negated
/// (itself when it is zero too); subtracting zero from a nonzero decimal gives
/// it back unchanged; a decimal minus itself is zero at its scale.
pub open spec fn decimal_checked_sub(a: Dec, b: Dec) -> Option<Dec> {
    if a.mant() == 0 {
        Some(Dec::parts(-b.mant(), b.scl()))
    } else if b.mant() == 0 {
        Some(a)
    } else if a == b {
        Some(Dec::parts(0, a.scl()))
    } else {
        decimal_difference(a, b)
    }
}

/// What `Decimal::checked_mul` returns: a zero operand gives zero with scale 0.
pub open spec fn decimal_checked_mul(a: Dec, b: Dec) -> Option<Dec> {
    if a.mant() == 0 || b.mant() == 0 {
        Some(Dec::parts(0, 0))
    } else {
        decimal_product(a, b)
    }
}

/// What `Decimal::checked_div` returns: nothing for a zero divisor, zero with
/// scale 0 for a zero dividend.
pub open spec fn decimal_checked_div(a: Dec, b: Dec) -> Option<Dec> {
    if b.mant() == 0 {
        None
    } else if a.mant() == 0 {
        Some(Dec::parts(0, 0))
    } else {
        decimal_quotient(a, b)
    }
}

/// Calls `Decimal::checked_add`. `None` is exactly where `+` on the same
/// operands panics ("Addition overflowed"). The zero shortcuts of
/// `add_sub_internal` return the other operand unchanged (the right one when
/// both are zero); how an inexact sum of nonzero operands is rounded is not
/// stated: that result is named.
#[verifier::external_body]
pub(crate) fn checked_add(a: &Dec, b: &Dec) -> (r: Option<Dec>)
    ensures
        r == (if a.mant() == 0 {
            Some(*b)
        } else if b.mant() == 0 {
            Some(*a)
        } else {
            decimal_sum(*a, *b)
        }),
{
    let x = rust_decimal::Decimal::from_i128_with_scale(a.mantissa, a.scale);
    let y = rust_decimal::Decimal::from_i128_with_scale(b.mantissa, b.scale);
    x.checked_add(y).map(|z| Dec { mantissa: z.mantissa(), scale: z.scale() })
}

/// Calls `Decimal::checked_sub`. `None` is exactly where `-` on the same
/// operands panics ("Subtraction overflowed"). The zero shortcuts of
/// `add_sub_internal`: from zero, the right operand with its sign flipped (a
/// zero right operand unchanged); subtracting zero from a nonzero decimal gives
/// it back unchanged. Equal operands (same mantissa and scale) give zero at
/// that scale, whichever of the aligned paths runs. Any other difference of
/// nonzero operands is named.
#[verifier::external_body]
pub(crate) fn checked_sub(a: &Dec, b: &Dec) -> (r: Option<Dec>)
    ensures
        r == (if a.mant() == 0 {
            Some(Dec::parts(-b.mant(), b.scl()))
        } else if b.mant() == 0 {
            Some(*a)
        } else if *a == *b {
            Some(Dec::parts(0, a.scl()))
        } else {
            decimal_difference(*a, *b)
        }),
{
    let x = rust_decimal::Decimal::from_i128_with_scale(a.mantissa, a.scale);
    let y = rust_decimal::Decimal::from_i128_with_scale(b.mantissa, b.scale);
    x.checked_sub(y).map(|z| Dec { mantissa: z.mantissa(), scale: z.scale() })
}

/// Calls `Decimal::checked_mul`. `None` is exactly where `*` on the same
/// operands panics ("Multiplication overflowed"). A zero operand gives
/// `Decimal::ZERO` (the first shortcut of `mul_impl`); how a product of nonzero
/// operands is rounded to 28 places is not stated: that result is named.
#[verifier::external_body]
pub(crate) fn checked_mul(a: &Dec, b: &Dec) -> (r: Option<Dec>)
    ensures
        r == (if a.mant() == 0 || b.mant() == 0 {
            Some(Dec::parts(0, 0))
        } else {
            decimal_product(*a, *b)
        }),
{
    let x = rust_decimal::Decimal::from_i128_with_scale(a.mantissa, a.scale);
    let y = rust_decimal::Decimal::from_i128_with_scale(b.mantissa, b.scale);
    x.checked_mul(y).map(|z| Dec { mantissa: z.mantissa(), scale: z.scale() })
}

/// Calls `Decimal::checked_div`. `None` is exactly where `/` on the same
/// operands panics ("Division by zero" or "Division overflowed"): a zero
/// divisor always gives `None`, and a zero dividend over a nonzero divisor
/// gives `Decimal::ZERO` (the shortcuts of `div_impl`). How the quotient of
/// nonzero operands is rounded is not stated: that result is named.
#[verifier::external_body]
pub(crate) fn checked_div(a: &Dec, b: &Dec) -> (r: Option<Dec>)
    ensures
        r == (if b.mant() == 0 {
            None
        } else if a.mant() == 0 {
            Some(Dec::parts(0, 0))
        } else {
            decimal_quotient(*a, *b)
        }),
{
    let x = rust_decimal::Decimal::from_i128_with_scale(a.mantissa, a.scale);
    let y = rust_decimal::Decimal::from_i128_with_scale(b.mantissa, b.scale);
    x.checked_div(y).map(|z| Dec { mantissa: z.mantissa(), scale: z.scale() })
}

/// Calls `<` on two `Decimal`s, which compares their numeric values.
#[verifier::external_body]
pub(crate) fn lt(a: &Dec, b: &Dec) -> (r: bool)
    ensures
        r == (a.val() < b.val()),
{
    let x = rust_decimal::Decimal::from_i128_with_scale(a.mantissa, a.scale);
    let y = rust_decimal::Decimal::from_i128_with_scale(b.mantissa, b.scale);
    x < y
}

/// Calls `==` on two `Decimal`s, which compares their numeric values
/// (`1.0 == 1.00`).
#[verifier::external_body]
pub(crate) fn eq(a: &Dec, b: &Dec) -> (r: bool)
    ensures
        r == (a.val() == b.val()),
{
    let x = rust_decimal::Decimal::from_i128_with_scale(a.mantissa, a.scale);
    let y = rust_decimal::Decimal::from_i128_with_scale(b.mantissa, b.scale);
    x == y
}

/// Calls `Decimal::abs`, which clears the sign and keeps the scale.
#[verifier::external_body]
pub(crate) fn abs(a: &Dec) -> (r: Dec)
    ensures
        r.mant() == (if a.mant() < 0 { -a.mant() } else { a.mant() }),
        r.scl() == a.scl(),
{
    let x = rust_decimal::Decimal::from_i128_with_scale(a.mantissa, a.scale);
    let z = x.abs();
    Dec { mantissa: z.mantissa(), scale: z.scale() }
}

/// Calls `Decimal::min`, which returns `other` when `self > other` and
/// `self` otherwise.
#[verifier::external_body]
pub(crate) fn min(a: &Dec, b: &Dec) -> (r: Dec)
    ensures
        r == (if a.val() > b.val() { *b } else { *a }),
{
    let x = rust_decimal::Decimal::from_i128_with_scale(a.mantissa, a.scale);
    let y = rust_decimal::Decimal::from_i128_with_scale(b.mantissa, b.scale);
    let z = x.min(y);
    Dec { mantissa: z.mantissa(), scale: z.scale() }
}

/// Truncation of a mantissa toward zero by `10^k`.
pub open spec fn trunc_div(m: int, k: nat) -> int {
    if m >= 0 {
        m / pow10(k)
    } else {
        -((-m) / pow10(k))
    }
}

/// What `Decimal::trunc_with_scale` returns.
pub uninterp spec fn decimal_trunc_with_scale(a: Dec, scale: u32) -> Dec;

/// Calls `Decimal::trunc_with_scale`: drops the digits past `scale` places
/// without rounding. Where the decimal has no more than `scale` places its value
/// is kept (the scale may grow, never past `scale`). Asked for more than
/// `MAX_SCALE` places, the outside code builds a decimal with that many places,
/// which no `Dec` can hold, so such a scale is ruled out.
#[verifier::external_body]
pub(crate) fn trunc_with_scale(a: &Dec, scale: u32) -> (r: Dec)
    requires
        scale <= MAX_SCALE,
    ensures
        r == decimal_trunc_with_scale(*a, scale),
        r.scl() <= scale,
        a.scl() > scale ==> r.mant() == trunc_div(a.mant(), (a.scl() - scale) as nat) && r.scl()
            == scale,
        a.scl() <= scale ==> r.val() == a.val(),
{
    let x = rust_decimal::Decimal::from_i128_with_scale(a.mantissa, a.scale);
    let z = x.trunc_with_scale(scale);
    Dec { mantissa: z.mantissa(), scale: z.scale() }
}

/// What `str::parse::<Decimal>` gives on the text.
pub uninterp spec fn decimal_from_str(s: Seq<char>) -> Option<Dec>;

/// Calls `str::parse::<Decimal>` (`Decimal::from_str`); `None` for text that is
/// not a decimal number.
#[verifier::external_body]
pub(crate) fn parse_decimal(s: &str) -> (r: Option<Dec>)
    ensures
        r == decimal_from_str(s@),
{
    match s.parse::<rust_decimal::Decimal>() {
        Ok(z) => Some(Dec { mantissa: z.mantissa(), scale: z.scale() }),
        Err(_) => None,
    }
}

/// What `Decimal::from_scientific` gives on the text.
pub uninterp spec fn decimal_from_scientific(s: Seq<char>) -> Option<Dec>;

/// Calls `Decimal::from_scientific`, which reads a mantissa, `e` or `E`, and
/// an exponent; `None` for any other text, or where the value does not fit.
#[verifier::external_body]
pub(crate) fn parse_scientific(s: &str) -> (r: Option<Dec>)
    ensures
        r == decimal_from_scientific(s@),
{
    match rust_decimal::Decimal::from_scientific(s) {
        Ok(z) => Some(Dec { mantissa: z.mantissa(), scale: z.scale() }),
        Err(_) => None,
    }
}

impl PartialEq for Dec {
    /// Decimals are equal when their values are (`1.0 == 1.00`).
    fn eq(&self, other: &Dec) -> (r: bool) {
        eq(self, other)
    }
}

impl PartialEqSpecImpl for Dec {
    open spec fn obeys_eq_spec() -> bool {
        true
    }

    open spec fn eq_spec(&self, other: &Dec) -> bool {
        self.val() == other.val()
    }
}

} // verus!
