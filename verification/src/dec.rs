//! Decimal amounts.
//!
//! Every monetary amount, percentage and rate of the group engine is a
//! `rust_decimal::Decimal`.  The library holds such a value as a [`Dec`]:
//! the plain pair (mantissa, scale) that denotes `mantissa × 10^-scale`,
//! exactly the representation `rust_decimal` uses.  All arithmetic is done
//! by `rust_decimal` itself, through the trusted wrappers of this module.
//!
//! The mathematical model of a `Dec` is [`Dec::units`]: its value counted in
//! units of `10^-28` (the finest scale a `Decimal` can carry), so that two
//! amounts of any scales compare, add and subtract as plain integers.
use vstd::arithmetic::power::pow;
use vstd::prelude::*;
use crate::manifest::shard_plan::digits_spec;

use rust_decimal::Decimal;
use vstd::std_specs::cmp::PartialEqSpecImpl;

verus! {

/// Largest scale a `rust_decimal::Decimal` can carry.
pub const MAX_SCALE: u32 = 28;

/// `2^96`: every mantissa lies strictly between `-2^96` and `2^96`.
pub open spec fn mantissa_limit() -> int {
    0x1_0000_0000_0000_0000_0000_0000int
}

/// `10^e`.
pub open spec fn pow10(e: nat) -> int {
    pow(10, e)
}

/// The number of decimal places by which a value of scale `s` must be
/// shifted to reach the finest scale.
pub open spec fn shift_of(s: nat) -> nat {
    if s <= 28 {
        (28 - s) as nat
    } else {
        0
    }
}

/// A decimal number `mantissa × 10^-scale`.
#[derive(Clone, Copy, Debug)]
pub struct Dec {
    mantissa: i128,
    scale: u32,
}

impl Dec {
    #[verifier::type_invariant]
    spec fn inv(self) -> bool {
        -mantissa_limit() < self.mantissa < mantissa_limit() && self.scale <= MAX_SCALE
    }

    /// `-self`, at the same scale.
    pub closed spec fn neg_spec(self) -> Dec {
        Dec { mantissa: (-self.mantissa) as i128, scale: self.scale }
    }

    /// `|self|`, at the same scale.
    pub closed spec fn abs_spec(self) -> Dec {
        if self.mantissa < 0 {
            self.neg_spec()
        } else {
            self
        }
    }

    pub closed spec fn spec_mantissa(self) -> int {
        self.mantissa as int
    }

    pub closed spec fn spec_scale(self) -> nat {
        self.scale as nat
    }

    /// The value in units of `10^-28`.
    pub open spec fn units(self) -> int {
        self.spec_mantissa() * pow10(shift_of(self.spec_scale()))
    }

    /// Builds `mantissa × 10^-scale`; `None` when the pair is outside the
    /// range a `Decimal` can hold.
    pub fn new(mantissa: i128, scale: u32) -> (r: Option<Dec>)
        ensures
            r is Some <==> (-mantissa_limit() < mantissa < mantissa_limit() && scale <= 28),
            r matches Some(d) ==> d.spec_mantissa() == mantissa && d.spec_scale() == scale,
    {
        if -0x1_0000_0000_0000_0000_0000_0000i128 < mantissa
            && mantissa < 0x1_0000_0000_0000_0000_0000_0000i128 && scale <= MAX_SCALE {
            Some(Dec { mantissa, scale })
        } else {
            None
        }
    }

    /// The whole number `n` (scale 0), as `Decimal::from(n)` gives it.
    pub fn from_i64(n: i64) -> (r: Dec)
        ensures
            r == Dec::int_spec(n),
            r.spec_mantissa() == n,
            r.spec_scale() == 0,
    {
        Dec { mantissa: n as i128, scale: 0 }
    }

    /// Zero, as `Decimal::ZERO` holds it.
    pub closed spec fn zero_spec() -> Dec {
        Dec { mantissa: 0, scale: 0 }
    }

    /// One, as `Decimal::ONE` holds it.
    pub closed spec fn one_spec() -> Dec {
        Dec { mantissa: 1, scale: 0 }
    }

    /// The non-negative whole number `n` (below `2^64`), as
    /// `Decimal::from(n)` holds it.
    pub closed spec fn whole_spec(n: nat) -> Dec {
        Dec { mantissa: n as i128, scale: 0 }
    }

    /// `Decimal::from(n)` for an unsigned 64-bit `n`.
    pub fn from_u64(n: u64) -> (r: Dec)
        ensures
            r == Dec::whole_spec(n as nat),
            r.spec_mantissa() == n,
            r.spec_scale() == 0,
    {
        Dec { mantissa: n as i128, scale: 0 }
    }

    /// The whole number `n`, as `Decimal::from(n)` holds it.
    pub closed spec fn int_spec(n: i64) -> Dec {
        Dec { mantissa: n as i128, scale: 0 }
    }

    pub fn zero() -> (r: Dec)
        ensures
            r == Dec::zero_spec(),
            r.spec_mantissa() == 0,
            r.spec_scale() == 0,
            r.units() == 0,
    {
        Dec { mantissa: 0, scale: 0 }
    }

    pub fn one() -> (r: Dec)
        ensures
            r == Dec::one_spec(),
            r.spec_mantissa() == 1,
            r.spec_scale() == 0,
            r.units() == pow10(28),
    {
        Dec { mantissa: 1, scale: 0 }
    }

    pub fn mantissa(&self) -> (r: i128)
        ensures
            r == self.spec_mantissa(),
            -mantissa_limit() < r < mantissa_limit(),
    {
        proof {
            use_type_invariant(self);
        }
        self.mantissa
    }

    pub fn scale(&self) -> (r: u32)
        ensures
            r == self.spec_scale(),
            r <= MAX_SCALE,
    {
        proof {
            use_type_invariant(self);
        }
        self.scale
    }

    pub fn is_zero(&self) -> (r: bool)
        ensures
            r == (self.units() == 0),
    {
        proof {
            lemma_pow10_positive(shift_of(self.spec_scale()));
            vstd::arithmetic::mul::lemma_mul_nonzero(
                self.spec_mantissa(),
                pow10(shift_of(self.spec_scale())),
            );
        }
        self.mantissa == 0
    }

    /// `-self`, same scale.
    pub fn neg(&self) -> (r: Dec)
        ensures
            r == self.neg_spec(),
            r.units() == -self.units(),
            r.spec_scale() == self.spec_scale(),
    {
        proof {
            use_type_invariant(self);
            vstd::arithmetic::mul::lemma_mul_unary_negation(
                self.spec_mantissa(),
                pow10(shift_of(self.spec_scale())),
            );
        }
        Dec { mantissa: -self.mantissa, scale: self.scale }
    }

    /// `|self|`, same scale.
    pub fn abs(&self) -> (r: Dec)
        ensures
            r == self.abs_spec(),
            r.units() == if self.units() < 0 { -self.units() } else { self.units() },
            r.spec_scale() == self.spec_scale(),
    {
        proof {
            lemma_units_sign(*self);
        }
        if self.mantissa < 0 {
            self.neg()
        } else {
            *self
        }
    }

    /// Value comparison: `true` when both denote the same number, whatever
    /// their scales.
    pub fn same_value(&self, other: &Dec) -> (r: bool)
        ensures
            r == (self.units() == other.units()),
    {
        decimal_eq(*self, *other)
    }
}

/// `==` compares the numbers denoted, whatever the scales (`1.0 == 1.00`),
/// as `Decimal`'s `==` does.
impl PartialEq for Dec {
    fn eq(&self, other: &Dec) -> (r: bool) {
        decimal_eq(*self, *other)
    }
}

impl PartialEqSpecImpl for Dec {
    open spec fn obeys_eq_spec() -> bool {
        true
    }

    open spec fn eq_spec(&self, other: &Dec) -> bool {
        self.units() == other.units()
    }
}

pub proof fn lemma_pow10_positive(e: nat)
    ensures
        pow10(e) > 0,
{
    vstd::arithmetic::power::lemma_pow_positive(10, e);
}

pub proof fn lemma_pow10_mono(e1: nat, e2: nat)
    requires
        e1 <= e2,
    ensures
        0 < pow10(e1) <= pow10(e2),
{
    vstd::arithmetic::power::lemma_pow_increases(10, e1, e2);
    lemma_pow10_positive(e1);
}

/// The sign of a value is the sign of its mantissa.
pub proof fn lemma_units_sign(d: Dec)
    ensures
        d.spec_mantissa() < 0 <==> d.units() < 0,
        d.spec_mantissa() == 0 <==> d.units() == 0,
        d.spec_mantissa() > 0 <==> d.units() > 0,
{
    let p = pow10(shift_of(d.spec_scale()));
    let m = d.spec_mantissa();
    lemma_pow10_positive(shift_of(d.spec_scale()));
    assert((m < 0 <==> m * p < 0) && (m == 0 <==> m * p == 0) && (m > 0 <==> m * p > 0))
        by (nonlinear_arith)
        requires
            p > 0,
    ;
}

pub open spec fn max_nat(a: nat, b: nat) -> nat {
    if a >= b {
        a
    } else {
        b
    }
}

/// A value of `u` units is representable at scale `s`, mantissa within 96 bits.
pub open spec fn fits_at(u: int, s: nat) -> bool {
    -mantissa_limit() * pow10(shift_of(s)) < u < mantissa_limit() * pow10(shift_of(s))
}

/// When `u` fits at scale `s`, it fits at any coarser (smaller) scale too.
pub proof fn lemma_fits_coarser(u: int, s: nat, t: nat)
    requires
        fits_at(u, s),
        t <= s,
    ensures
        fits_at(u, t),
{
    lemma_pow10_mono(shift_of(s), shift_of(t));
    let p1 = pow10(shift_of(s));
    let p2 = pow10(shift_of(t));
    let l = mantissa_limit();
    assert(l * p1 <= l * p2 && -l * p2 <= -l * p1) by (nonlinear_arith)
        requires
            0 < p1 <= p2,
            l > 0,
    ;
}

/// `a ± b` is computed exactly: the sum, aligned to the larger of the two
/// scales, has a mantissa within 96 bits.
pub open spec fn fits_sum(a: Dec, b: Dec, total: int) -> bool {
    fits_at(total, max_nat(a.spec_scale(), b.spec_scale()))
}

/// Round-half-to-even of `m / p` (`p > 0`), applied to the magnitude; the
/// sign of `m` is kept.
pub open spec fn round_half_even(m: int, p: int) -> int {
    let a = if m < 0 {
        -m
    } else {
        m
    };
    let q = a / p;
    let r = a % p;
    let q2 = if 2 * r > p || (2 * r == p && q % 2 == 1) {
        q + 1
    } else {
        q
    };
    if m < 0 {
        -q2
    } else {
        q2
    }
}

/// `r` is the exact result `total` (in units), at a scale no larger than
/// the larger operand scale.
pub open spec fn exact_sum(r: Option<Dec>, a: Dec, b: Dec, total: int) -> bool {
    r matches Some(x) && x.units() == total && x.spec_scale() <= max_nat(
        a.spec_scale(),
        b.spec_scale(),
    )
}

/// The product of the mantissas fits in 96 bits and the sum of the scales
/// stays within 28.
pub open spec fn fits_product(a: Dec, b: Dec) -> bool {
    &&& -mantissa_limit() < a.spec_mantissa() * b.spec_mantissa() < mantissa_limit()
    &&& a.spec_scale() + b.spec_scale() <= 28
}

/// `r` is the exact product: mantissa `a.m * b.m` at scale `a.s + b.s`
/// (scale 0 when the product is zero).
pub open spec fn exact_product(r: Option<Dec>, a: Dec, b: Dec) -> bool {
    r matches Some(x) && x.spec_mantissa() == a.spec_mantissa() * b.spec_mantissa() && (
    x.spec_mantissa() != 0 ==> x.spec_scale() == a.spec_scale() + b.spec_scale())
}

/// What `Decimal::checked_add` returns for two decimals.
pub uninterp spec fn decimal_checked_add(a: Dec, b: Dec) -> Option<Dec>;

/// What `Decimal::checked_sub` returns for two decimals.
pub uninterp spec fn decimal_checked_sub(a: Dec, b: Dec) -> Option<Dec>;

/// What `Decimal::checked_mul` returns for two decimals.
pub uninterp spec fn decimal_checked_mul(a: Dec, b: Dec) -> Option<Dec>;

/// What `Decimal::checked_div` returns for two decimals.
pub uninterp spec fn decimal_checked_div(a: Dec, b: Dec) -> Option<Dec>;

/// `Decimal::checked_add`.  The crate aligns both operands to the larger
/// scale and adds the mantissas; when that aligned sum fits in 96 bits the
/// result is exact, at a scale no larger than the larger operand scale.
/// Otherwise it rounds the scale down, or reports overflow at scale 0; that
/// case is left to the name `decimal_checked_add`.
#[verifier::external_body]
pub fn dec_add(a: Dec, b: Dec) -> (r: Option<Dec>)
    ensures
        r == decimal_checked_add(a, b),
        fits_sum(a, b, a.units() + b.units()) ==> exact_sum(r, a, b, a.units() + b.units()),
{
    let x = Decimal::from_i128_with_scale(a.mantissa, a.scale);
    let y = Decimal::from_i128_with_scale(b.mantissa, b.scale);
    x.checked_add(y).map(|d| Dec { mantissa: d.mantissa(), scale: d.scale() })
}

/// `Decimal::checked_sub`; same contract as [`dec_add`] for `a - b`.
#[verifier::external_body]
pub fn dec_sub(a: Dec, b: Dec) -> (r: Option<Dec>)
    ensures
        r == decimal_checked_sub(a, b),
        fits_sum(a, b, a.units() - b.units()) ==> exact_sum(r, a, b, a.units() - b.units()),
{
    let x = Decimal::from_i128_with_scale(a.mantissa, a.scale);
    let y = Decimal::from_i128_with_scale(b.mantissa, b.scale);
    x.checked_sub(y).map(|d| Dec { mantissa: d.mantissa(), scale: d.scale() })
}

/// `Decimal::checked_mul`.  The product of the mantissas at the sum of the
/// scales is exact when it fits in 96 bits and the scale stays within 28
/// (a zero product is returned as zero at scale 0).  Otherwise the crate
/// rounds or reports overflow; that case is left to the name.
#[verifier::external_body]
pub fn dec_mul(a: Dec, b: Dec) -> (r: Option<Dec>)
    ensures
        r == decimal_checked_mul(a, b),
        fits_product(a, b) ==> exact_product(r, a, b),
{
    let x = Decimal::from_i128_with_scale(a.mantissa, a.scale);
    let y = Decimal::from_i128_with_scale(b.mantissa, b.scale);
    x.checked_mul(y).map(|d| Dec { mantissa: d.mantissa(), scale: d.scale() })
}

/// `Decimal::checked_div`.  Division by zero gives `None`; otherwise the
/// quotient is rounded to what a `Decimal` can carry, which is left to the
/// name `decimal_checked_div`.
#[verifier::external_body]
pub fn dec_div(a: Dec, b: Dec) -> (r: Option<Dec>)
    ensures
        r == decimal_checked_div(a, b),
        b.units() == 0 ==> r is None,
{
    let x = Decimal::from_i128_with_scale(a.mantissa, a.scale);
    let y = Decimal::from_i128_with_scale(b.mantissa, b.scale);
    x.checked_div(y).map(|d| Dec { mantissa: d.mantissa(), scale: d.scale() })
}

/// `Decimal::round_dp`: banker's rounding to `dp` decimal places.  A value
/// with at most `dp` places is returned unchanged; otherwise the mantissa
/// is divided by `10^(scale - dp)` and rounded half to even, at scale `dp`.
#[verifier::external_body]
pub fn dec_round_dp(a: Dec, dp: u32) -> (r: Dec)
    ensures
        a.spec_scale() <= dp ==> r == a,
        a.spec_scale() > dp ==> (r.spec_scale() == dp && r.spec_mantissa() == round_half_even(
            a.spec_mantissa(),
            pow10((a.spec_scale() - dp) as nat),
        )),
{
    let x = Decimal::from_i128_with_scale(a.mantissa, a.scale);
    let d = x.round_dp(dp);
    Dec { mantissa: d.mantissa(), scale: d.scale() }
}

/// A value in units rounded half to even to two decimal places (a
/// multiple of `10^26` units).
pub open spec fn round2_units(u: int) -> int {
    round_half_even(u, pow10(26)) * pow10(26)
}

/// Scaling numerator and denominator by the same positive factor keeps
/// the quotient and scales the remainder.
proof fn lemma_div_mod_scaled(a: int, q: int, k: int)
    requires
        a >= 0,
        q > 0,
        k > 0,
    ensures
        (a * k) / (q * k) == a / q,
        (a * k) % (q * k) == (a % q) * k,
{
    let q0 = a / q;
    let r0 = a % q;
    vstd::arithmetic::div_mod::lemma_fundamental_div_mod(a, q);
    assert(a * k == q0 * (q * k) + r0 * k && 0 <= r0 * k < q * k) by (nonlinear_arith)
        requires
            a == q * q0 + r0,
            0 <= r0 < q,
            k > 0,
    ;
    vstd::arithmetic::div_mod::lemma_fundamental_div_mod_converse(a * k, q * k, q0, r0 * k);
}

/// Rounding a value to two places, whatever its representation.
pub proof fn lemma_round2_units(a: Dec, r: Dec)
    requires
        a.spec_scale() <= 28,
        a.spec_scale() <= 2 ==> r == a,
        a.spec_scale() > 2 ==> (r.spec_scale() == 2 && r.spec_mantissa() == round_half_even(
            a.spec_mantissa(),
            pow10((a.spec_scale() - 2) as nat),
        )),
    ensures
        r.units() == round2_units(a.units()),
{
    let s = a.spec_scale();
    let m = a.spec_mantissa();
    let p = pow10(26);
    lemma_pow10_positive(26);
    if s <= 2 {
        let j = pow10((2 - s) as nat);
        lemma_pow10_positive((2 - s) as nat);
        vstd::arithmetic::power::lemma_pow_adds(10, (2 - s) as nat, 26);
        assert(shift_of(s) == (2 - s) as nat + 26);
        let am = if m < 0 { -m } else { m };
        let u = m * (j * p);
        assert(a.units() == u);
        let au = if u < 0 { -u } else { u };
        assert(au == (am * j) * p) by (nonlinear_arith)
            requires
                u == m * (j * p),
                am == (if m < 0 { -m } else { m }),
                au == (if u < 0 { -u } else { u }),
                j > 0,
                p > 0,
        ;
        vstd::arithmetic::div_mod::lemma_fundamental_div_mod_converse(au, p, am * j, 0);
        assert(round_half_even(u, p) * p == u) by (nonlinear_arith)
            requires
                au / p == am * j,
                au % p == 0,
                round_half_even(u, p) == (if u < 0 { -(au / p) } else { au / p }),
                au == (am * j) * p,
                am == (if m < 0 { -m } else { m }),
                u == m * (j * p),
        ;
    } else {
        let q = pow10((s - 2) as nat);
        let k = pow10(shift_of(s));
        lemma_pow10_positive((s - 2) as nat);
        lemma_pow10_positive(shift_of(s));
        vstd::arithmetic::power::lemma_pow_adds(10, (s - 2) as nat, shift_of(s));
        assert((s - 2) as nat + shift_of(s) == 26);
        assert(p == q * k);
        let am = if m < 0 { -m } else { m };
        let u = m * k;
        let au = if u < 0 { -u } else { u };
        assert(au == am * k) by (nonlinear_arith)
            requires
                u == m * k,
                k > 0,
                am == (if m < 0 { -m } else { m }),
                au == (if u < 0 { -u } else { u }),
        ;
        lemma_div_mod_scaled(am, q, k);
        assert(u < 0 <==> m < 0) by (nonlinear_arith)
            requires
                u == m * k,
                k > 0,
        ;
        assert(au / p == am / q);
        assert(au % p == (am % q) * k);
        let q0 = am / q;
        let r0 = am % q;
        assert((2 * (r0 * k) > q * k <==> 2 * r0 > q) && (2 * (r0 * k) == q * k <==> 2 * r0 == q))
            by (nonlinear_arith)
            requires
                k > 0,
        ;
        assert(round_half_even(u, p) == round_half_even(m, q));
        assert(r.units() == round_half_even(m, q) * pow10(shift_of(2)));
        assert(shift_of(2) == 26);
    }
}

/// Rounding to two places moves a value by at most `10^26` units, and
/// keeps its sign.
pub proof fn lemma_round2_bound(u: int)
    ensures
        abs(round2_units(u)) <= abs(u) + pow10(26),
        u >= 0 ==> round2_units(u) >= 0,
        u <= 0 ==> round2_units(u) <= 0,
{
    let p = pow10(26);
    lemma_pow10_positive(26);
    let a = if u < 0 { -u } else { u };
    let q = a / p;
    let r = a % p;
    vstd::arithmetic::div_mod::lemma_fundamental_div_mod(a, p);
    let q2 = if 2 * r > p || (2 * r == p && q % 2 == 1) { q + 1 } else { q };
    assert(0 <= q2 * p <= a + p) by (nonlinear_arith)
        requires
            a == p * q + r,
            0 <= r < p,
            q2 == q || q2 == q + 1,
            a >= 0,
            p > 0,
    ;
    assert(round_half_even(u, p) == (if u < 0 { -q2 } else { q2 }));
    assert((-q2) * p == -(q2 * p)) by (nonlinear_arith);
}

/// A value already on two places rounds to itself.
pub proof fn lemma_round2_multiple(k: int)
    ensures
        round2_units(k * pow10(26)) == k * pow10(26),
{
    let p = pow10(26);
    lemma_pow10_positive(26);
    let u = k * p;
    let ak = if k < 0 { -k } else { k };
    let au = if u < 0 { -u } else { u };
    assert(au == ak * p && (u < 0 <==> k < 0)) by (nonlinear_arith)
        requires
            u == k * p,
            p > 0,
            ak == (if k < 0 { -k } else { k }),
            au == (if u < 0 { -u } else { u }),
    ;
    vstd::arithmetic::div_mod::lemma_fundamental_div_mod_converse(au, p, ak, 0);
    assert(round_half_even(u, p) == k);
}

/// The scale of an amount of scale `s` rounded to two places.
pub open spec fn scale2(s: nat) -> nat {
    if s <= 2 {
        s
    } else {
        2
    }
}

/// `d` rounded half to even to two decimal places (`Decimal::round_dp(2)`).
pub fn round2(d: Dec) -> (r: Dec)
    ensures
        r.units() == round2_units(d.units()),
        r.spec_scale() <= max_nat(d.spec_scale(), 2),
        r.spec_scale() <= 2,
        r.spec_scale() == scale2(d.spec_scale()),
{
    let r = dec_round_dp(d, 2);
    proof {
        use_type_invariant(&d);
        lemma_round2_units(d, r);
    }
    r
}

/// `<` on two `Decimal`s: compares the numbers they denote.
#[verifier::external_body]
pub fn dec_lt(a: Dec, b: Dec) -> (r: bool)
    ensures
        r == (a.units() < b.units()),
{
    let x = Decimal::from_i128_with_scale(a.mantissa, a.scale);
    let y = Decimal::from_i128_with_scale(b.mantissa, b.scale);
    x < y
}

/// `==` on two `Decimal`s: equal numbers, whatever their scales.
#[verifier::external_body]
pub fn decimal_eq(a: Dec, b: Dec) -> (r: bool)
    ensures
        r == (a.units() == b.units()),
{
    let x = Decimal::from_i128_with_scale(a.mantissa, a.scale);
    let y = Decimal::from_i128_with_scale(b.mantissa, b.scale);
    x == y
}

/// `a <= b` on the denoted numbers.
pub fn dec_le(a: Dec, b: Dec) -> (r: bool)
    ensures
        r == (a.units() <= b.units()),
{
    !dec_lt(b, a)
}

/// Magnitude of an integer.
pub open spec fn abs(u: int) -> int {
    if u < 0 {
        -u
    } else {
        u
    }
}

/// A value no larger in magnitude than a bound that fits at scale `s` fits
/// at every scale up to `s`.
pub proof fn lemma_bounded_fits(u: int, b: int, s: nat, t: nat)
    requires
        abs(u) <= b,
        fits_at(b, s),
        t <= s,
    ensures
        fits_at(u, t),
{
    let p = pow10(shift_of(s));
    let l = mantissa_limit();
    assert(-l * p == -(l * p)) by (nonlinear_arith);
    lemma_fits_coarser(u, s, t);
}

/// Sum of the values, in units.
pub open spec fn units_sum(s: Seq<Dec>) -> int
    decreases s.len(),
{
    if s.len() == 0 {
        0
    } else {
        units_sum(s.drop_last()) + s.last().units()
    }
}

/// What a left-to-right `checked_add` of the values from zero returns:
/// `None` once an addition overflows.
pub open spec fn checked_sum(s: Seq<Dec>) -> Option<Dec>
    decreases s.len(),
{
    if s.len() == 0 {
        Some(Dec::zero_spec())
    } else {
        match checked_sum(s.drop_last()) {
            Some(acc) => decimal_checked_add(acc, s.last()),
            None => None,
        }
    }
}

/// Once a prefix sum overflows, so does the whole sum.
pub proof fn lemma_checked_sum_none(s: Seq<Dec>, k: int)
    requires
        0 <= k <= s.len(),
        checked_sum(s.take(k)) is None,
    ensures
        checked_sum(s) is None,
    decreases s.len() - k,
{
    if k < s.len() {
        assert(s.take(k + 1).drop_last() =~= s.take(k));
        lemma_checked_sum_none(s, k + 1);
    } else {
        assert(s.take(k) =~= s);
    }
}

/// Largest scale among the values (0 for none).
pub open spec fn max_scale(s: Seq<Dec>) -> nat
    decreases s.len(),
{
    if s.len() == 0 {
        0
    } else {
        max_nat(max_scale(s.drop_last()), s.last().spec_scale())
    }
}

/// Every running total of a left-to-right sum is computed exactly: each
/// fits at the largest scale seen so far.
pub open spec fn sum_fits(s: Seq<Dec>) -> bool {
    forall|k: int| 1 <= k <= s.len() ==> fits_at(#[trigger] units_sum(s.take(k)), max_scale(s.take(k)))
}

/// Left-to-right sum, starting from zero.  `None` when `rust_decimal`
/// reports an overflow.
pub fn sum_decs(v: &Vec<Dec>) -> (r: Option<Dec>)
    ensures
        r == checked_sum(v@),
        sum_fits(v@) ==> (r matches Some(x) && x.units() == units_sum(v@) && x.spec_scale()
            <= max_scale(v@)),
{
    let mut acc = Dec::zero();
    let mut i: usize = 0;
    while i < v.len()
        invariant
            i <= v@.len(),
            checked_sum(v@.take(i as int)) == Some(acc),
            sum_fits(v@) ==> (acc.units() == units_sum(v@.take(i as int)) && acc.spec_scale()
                <= max_scale(v@.take(i as int))),
        decreases v.len() - i,
    {
        proof {
            assert(v@.take(i + 1).drop_last() =~= v@.take(i as int));
            assert(v@.take(i + 1).last() == v@[i as int]);
            if sum_fits(v@) {
                assert(fits_at(units_sum(v@.take(i + 1)), max_scale(v@.take(i + 1))));
                lemma_fits_coarser(
                    units_sum(v@.take(i + 1)),
                    max_scale(v@.take(i + 1)),
                    max_nat(acc.spec_scale(), v@[i as int].spec_scale()),
                );
            }
        }
        match dec_add(acc, v[i]) {
            Some(x) => {
                acc = x;
            },
            None => {
                proof {
                    lemma_checked_sum_none(v@, i + 1);
                }
                return None;
            },
        }
        i = i + 1;
    }
    proof {
        assert(v@.take(i as int) =~= v@);
    }
    Some(acc)
}

/// Sum of the magnitudes of the values, in units.
pub open spec fn abs_sum(s: Seq<Dec>) -> int
    decreases s.len(),
{
    if s.len() == 0 {
        0
    } else {
        abs_sum(s.drop_last()) + abs(s.last().units())
    }
}

/// Every prefix sum is bounded by the sum of magnitudes, which grows with
/// the prefix; so does the largest scale.
pub proof fn lemma_sum_prefix(s: Seq<Dec>, k: int)
    requires
        0 <= k <= s.len(),
    ensures
        abs(units_sum(s.take(k))) <= abs_sum(s.take(k)),
        abs_sum(s.take(k)) <= abs_sum(s),
        max_scale(s.take(k)) <= max_scale(s),
        0 <= abs_sum(s.take(k)),
    decreases s.len(),
{
    if k == s.len() {
        assert(s.take(k) =~= s);
        if s.len() > 0 {
            lemma_sum_prefix(s.drop_last(), k - 1);
            assert(s.drop_last().take(k - 1) =~= s.drop_last());
        }
    } else {
        lemma_sum_prefix(s.drop_last(), k);
        assert(s.drop_last().take(k) =~= s.take(k));
        lemma_sum_prefix(s.drop_last(), s.len() - 1);
        assert(s.drop_last().take(s.len() - 1) =~= s.drop_last());
    }
}

/// When the magnitudes together fit at the largest scale, every running
/// total of the sum is exact.
pub proof fn lemma_bound_sum_fits(s: Seq<Dec>)
    requires
        fits_at(abs_sum(s), max_scale(s)),
    ensures
        sum_fits(s),
{
    assert forall|k: int| 1 <= k <= s.len() implies fits_at(#[trigger] units_sum(s.take(k)), max_scale(s.take(k))) by {
        lemma_sum_prefix(s, k);
        lemma_bounded_fits(units_sum(s.take(k)), abs_sum(s), max_scale(s), max_scale(s.take(k)));
    }
}

/// `10^e` as an `i128`.
fn pow10_i128(e: u32) -> (r: i128)
    requires
        e <= MAX_SCALE,
    ensures
        r == pow10(e as nat),
        0 < r <= pow10(28),
{
    let mut r: i128 = 1;
    let mut i: u32 = 0;
    proof {
        vstd::arithmetic::power::lemma_pow0(10);
        lemma_pow10_28();
    }
    while i < e
        invariant
            i <= e <= 28,
            r == pow10(i as nat),
            pow10(28) == 10000000000000000000000000000int,
        decreases e - i,
    {
        proof {
            lemma_pow10_mono((i + 1) as nat, 28);
            vstd::arithmetic::power::lemma_pow_adds(10, i as nat, 1);
            vstd::arithmetic::power::lemma_pow1(10);
        }
        r = r * 10;
        i = i + 1;
    }
    proof {
        lemma_pow10_mono(i as nat, 28);
    }
    r
}

proof fn lemma_pow10_28()
    ensures
        pow10(28) == 10000000000000000000000000000int,
{
    reveal_with_fuel(pow, 29);
}

/// Sum of the magnitudes of the mantissas, each brought to scale `sc`.
pub open spec fn scaled_abs(s: Seq<Dec>, sc: nat) -> int
    decreases s.len(),
{
    if s.len() == 0 {
        0
    } else {
        scaled_abs(s.drop_last(), sc) + abs(s.last().spec_mantissa()) * pow10((sc - s.last().spec_scale()) as nat)
    }
}

proof fn lemma_scaled_abs(s: Seq<Dec>, sc: nat)
    requires
        sc <= 28,
        forall|j: int| 0 <= j < s.len() ==> (#[trigger] s[j]).spec_scale() <= sc,
    ensures
        abs_sum(s) == scaled_abs(s, sc) * pow10((28 - sc) as nat),
        0 <= scaled_abs(s, sc),
    decreases s.len(),
{
    if s.len() > 0 {
        let d = s.last();
        assert(d == s[s.len() - 1]);
        lemma_scaled_abs(s.drop_last(), sc);
        let a = (sc - d.spec_scale()) as nat;
        let b = (28 - sc) as nat;
        vstd::arithmetic::power::lemma_pow_adds(10, a, b);
        lemma_pow10_positive(a);
        lemma_pow10_positive(b);
        assert(shift_of(d.spec_scale()) == a + b);
        let m = d.spec_mantissa();
        let pa = pow10(a);
        let pb = pow10(b);
        assert(abs(m * (pa * pb)) == abs(m) * pa * pb) by (nonlinear_arith)
            requires
                pa > 0,
                pb > 0,
        ;
        assert(abs(m) * pa >= 0) by (nonlinear_arith)
            requires
                pa > 0,
        ;
        assert((scaled_abs(s.drop_last(), sc) + abs(m) * pa) * pb == scaled_abs(s.drop_last(), sc) * pb + abs(m)
            * pa * pb) by (nonlinear_arith);
    }
}

proof fn lemma_scaled_abs_prefix(s: Seq<Dec>, sc: nat, k: int)
    requires
        0 <= k <= s.len(),
    ensures
        scaled_abs(s.take(k), sc) <= scaled_abs(s, sc),
    decreases s.len() - k,
{
    if k < s.len() {
        lemma_scaled_abs_prefix(s, sc, k + 1);
        assert(s.take(k + 1).drop_last() =~= s.take(k));
        lemma_pow10_positive((sc - s[k].spec_scale()) as nat);
        assert(abs(s[k].spec_mantissa()) * pow10((sc - s[k].spec_scale()) as nat) >= 0) by (nonlinear_arith)
            requires
                pow10((sc - s[k].spec_scale()) as nat) > 0,
        ;
    } else {
        assert(s.take(k) =~= s);
    }
}

/// Whether the magnitudes of the values together fit at their largest
/// scale, that is whether every running total of their sum is exact.
pub fn magnitudes_fit(v: &Vec<Dec>) -> (r: bool)
    ensures
        r == fits_at(abs_sum(v@), max_scale(v@)),
{
    let ghost s = v@;
    let mut sc: u32 = 0;
    let mut i: usize = 0;
    while i < v.len()
        invariant
            s == v@,
            i <= s.len(),
            sc == max_scale(s.take(i as int)),
            sc <= 28,
            forall|j: int| 0 <= j < i ==> (#[trigger] s[j]).spec_scale() <= 28,
        decreases v.len() - i,
    {
        proof {
            assert(s.take(i + 1).drop_last() =~= s.take(i as int));
            assert(s.take(i + 1).last() == s[i as int]);
        }
        let x = v[i].scale();
        if x > sc {
            sc = x;
        }
        i = i + 1;
    }
    proof {
        assert(s.take(i as int) =~= s);
        lemma_max_scale_bounds(s);
    }
    let mut total: i128 = 0;
    let mut k: usize = 0;
    while k < v.len()
        invariant
            s == v@,
            k <= s.len(),
            sc == max_scale(s),
            sc <= 28,
            forall|j: int| 0 <= j < s.len() ==> (#[trigger] s[j]).spec_scale() <= sc,
            total == scaled_abs(s.take(k as int), sc as nat),
            0 <= total < mantissa_limit(),
        decreases v.len() - k,
    {
        proof {
            assert(s.take(k + 1).drop_last() =~= s.take(k as int));
            assert(s.take(k + 1).last() == s[k as int]);
            lemma_scaled_abs_prefix(s, sc as nat, k + 1);
        }
        let d = v[k];
        let p = pow10_i128(sc - d.scale());
        let m = d.mantissa();
        let am: i128 = if m < 0 {
            -m
        } else {
            m
        };
        match am.checked_mul(p) {
            None => {
                proof {
                    lemma_scaled_abs(s, sc as nat);
                    lemma_scaled_abs(s.take(k as int), sc as nat);
                    assert(am * p > mantissa_limit()) by (nonlinear_arith)
                        requires
                            am * p > i128::MAX || am * p < i128::MIN,
                            am >= 0,
                            p > 0,
                    ;
                    lemma_fits_iff(s, sc as nat);
                }
                return false;
            },
            Some(t) => {
                if t >= mantissa_limit_i128() - total {
                    proof {
                        lemma_scaled_abs(s.take(k as int), sc as nat);
                        lemma_fits_iff(s, sc as nat);
                    }
                    return false;
                }
                total = total + t;
            },
        }
        k = k + 1;
    }
    proof {
        assert(s.take(k as int) =~= s);
        lemma_fits_iff(s, sc as nat);
    }
    true
}

/// `2^96` as an `i128`.
fn mantissa_limit_i128() -> (r: i128)
    ensures
        r == mantissa_limit(),
{
    0x1_0000_0000_0000_0000_0000_0000i128
}

proof fn lemma_max_scale_bounds(s: Seq<Dec>)
    ensures
        forall|j: int| 0 <= j < s.len() ==> (#[trigger] s[j]).spec_scale() <= max_scale(s),
    decreases s.len(),
{
    if s.len() > 0 {
        lemma_max_scale_bounds(s.drop_last());
        assert forall|j: int| 0 <= j < s.len() implies (#[trigger] s[j]).spec_scale() <= max_scale(s) by {
            if j < s.len() - 1 {
                assert(s[j] == s.drop_last()[j]);
            }
        }
    }
}

/// The magnitudes fit at scale `sc` exactly when their mantissas, brought
/// to that scale, sum below `2^96`.
proof fn lemma_fits_iff(s: Seq<Dec>, sc: nat)
    requires
        sc == max_scale(s),
        sc <= 28,
        forall|j: int| 0 <= j < s.len() ==> (#[trigger] s[j]).spec_scale() <= sc,
    ensures
        fits_at(abs_sum(s), sc) == (scaled_abs(s, sc) < mantissa_limit()),
{
    lemma_scaled_abs(s, sc);
    let p = pow10((28 - sc) as nat);
    lemma_pow10_positive((28 - sc) as nat);
    assert(shift_of(sc) == (28 - sc) as nat);
    let b = scaled_abs(s, sc);
    let l = mantissa_limit();
    assert((b * p < l * p) == (b < l)) by (nonlinear_arith)
        requires
            p > 0,
    ;
    assert(-l * p < 0 <= b * p) by (nonlinear_arith)
        requires
            p > 0,
            b >= 0,
            l > 0,
    ;
}

/// What `Decimal`'s `Display` writes for `mantissa × 10^-scale`: the
/// digits of |mantissa| (none for zero), padded on the left with zeros
/// to at least `scale` digits; a decimal point `scale` places from the
/// right when the scale is not zero, with a `0` before it when no digit
/// is left of it; `0` for zero at scale zero; and a `-` in front for a
/// negative mantissa.
#[verifier::opaque]
pub open spec fn decimal_text(d: Dec) -> Seq<char> {
    let m = d.spec_mantissa();
    let scale = d.spec_scale() as int;
    let ds = if m == 0 {
        Seq::<char>::empty()
    } else {
        digits_spec(abs(m as int) as nat)
    };
    let padded = if ds.len() < scale {
        Seq::new((scale - ds.len()) as nat, |i: int| '0') + ds
    } else {
        ds
    };
    let body = if scale == 0 {
        if padded.len() == 0 {
            seq!['0']
        } else {
            padded
        }
    } else {
        let whole = padded.take(padded.len() - scale);
        (if whole.len() == 0 {
            seq!['0']
        } else {
            whole
        }) + seq!['.'] + padded.skip(padded.len() - scale)
    };
    if m < 0 {
        seq!['-'] + body
    } else {
        body
    }
}

proof fn lemma_digits_are_digits(n: nat)
    ensures
        forall|i: int| 0 <= i < digits_spec(n).len() ==> '0' <= #[trigger] digits_spec(n)[i] <= '9',
    decreases n,
{
    let x = if n < 10 {
        n
    } else {
        n % 10
    };
    let b = (x + 48) as u8;
    assert(48 <= b <= 57);
    assert((b as char) as u32 == b as u32);
    assert('0' <= b as char <= '9');
    if n >= 10 {
        lemma_digits_are_digits(n / 10);
        let p = digits_spec(n / 10);
        assert(digits_spec(n) == p.push(b as char));
        assert forall|i: int| 0 <= i < digits_spec(n).len() implies '0' <= #[trigger] digits_spec(n)[i] <= '9' by {
            if i < p.len() {
                assert(digits_spec(n)[i] == p[i]);
            }
        }
    } else {
        assert(digits_spec(n) == seq![b as char]);
    }
}

/// The text of a decimal holds no line break.
pub proof fn lemma_decimal_text_single_line(d: Dec)
    ensures
        forall|i: int| 0 <= i < decimal_text(d).len() ==> #[trigger] decimal_text(d)[i] != '\n',
{
    reveal(decimal_text);
    let m = d.spec_mantissa();
    if m != 0 {
        lemma_digits_are_digits(abs(m as int) as nat);
    }
}

/// `Decimal::to_string`, through its `Display`.
#[verifier::external_body]
pub fn dec_to_str(d: Dec) -> (r: String)
    ensures
        r@ == decimal_text(d),
{
    Decimal::from_i128_with_scale(d.mantissa, d.scale).to_string()
}

} // verus!
