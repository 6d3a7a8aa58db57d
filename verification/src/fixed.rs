//! Decimal fixed-point numbers: the fee multiplier and portions of one.

use vstd::prelude::*;

use sp_runtime::traits::Saturating;
use sp_runtime::FixedPointNumber;

verus! {

/// The number of parts that one whole is divided into, for `FixedU128` as for `Perquintill`.
pub const ACCURACY: u128 = 1_000_000_000_000_000_000;

/// `a * b / c`. The quotient is rounded down when the product fits 128 bits, and also when the
/// divisor fits 32 bits; it is otherwise rounded to the nearest integer, an exact half down.
pub open spec fn multiply_by_rational(a: nat, b: nat, c: nat) -> nat {
    let product = a * b;
    if product > u128::MAX && c > u32::MAX && product % c > c / 2 {
        product / c + 1
    } else {
        product / c
    }
}

/// `x`, or `limit` where `x` lies above it.
pub open spec fn saturate(x: nat, limit: nat) -> nat {
    if x <= limit {
        x
    } else {
        limit
    }
}

/// The product of two fixed-point numbers, by their inner values.
pub open spec fn fixed_product(a: nat, b: nat) -> nat {
    saturate(multiply_by_rational(a, b, ACCURACY as nat), u128::MAX as nat)
}

/// The fixed-point number `n / d`, by its inner value.
pub open spec fn fixed_ratio(n: nat, d: nat) -> nat {
    saturate(multiply_by_rational(n, ACCURACY as nat, d), u128::MAX as nat)
}

/// The integer `n` scaled by the fixed-point number of inner value `a`, before it is cut to the
/// range of the integer's type.
pub open spec fn fixed_scaled(a: nat, n: nat) -> nat {
    multiply_by_rational(a, n, ACCURACY as nat)
}

/// Calls `Saturating::saturating_mul` of `sp_runtime::FixedU128`. Trusted: the result's inner
/// value is the product of the two divided by the accuracy, and the largest inner value where
/// that quotient does not fit.
#[verifier::external_body]
fn outer_saturating_mul(a: u128, b: u128) -> (r: u128)
    ensures
        r == fixed_product(a as nat, b as nat),
{
    sp_runtime::FixedU128::from_inner(a).saturating_mul(sp_runtime::FixedU128::from_inner(b)).into_inner()
}

/// Calls `FixedPointNumber::saturating_from_rational` of `sp_runtime::FixedU128`. Trusted: the
/// result's inner value is `n` times the accuracy divided by `d`, and the largest inner value
/// where that quotient does not fit. The function panics where `d` is zero.
#[verifier::external_body]
fn outer_saturating_from_rational(n: u128, d: u64) -> (r: u128)
    requires
        d > 0,
    ensures
        r == fixed_ratio(n as nat, d as nat),
{
    sp_runtime::FixedU128::saturating_from_rational(n, d).into_inner()
}

/// Calls the operator `/` of `sp_runtime::FixedU128`. Trusted: the result's inner value is that
/// of `a` times the accuracy divided by that of `b`. The operator panics where `b` is zero and
/// where the quotient does not fit.
#[verifier::external_body]
fn outer_div(a: u128, b: u128) -> (r: u128)
    requires
        b > 0,
        multiply_by_rational(a as nat, ACCURACY as nat, b as nat) <= u128::MAX,
    ensures
        r == multiply_by_rational(a as nat, ACCURACY as nat, b as nat),
{
    (sp_runtime::FixedU128::from_inner(a) / sp_runtime::FixedU128::from_inner(b)).into_inner()
}

/// Calls `FixedPointNumber::saturating_mul_int` of `sp_runtime::FixedU128` on a `u128`. Trusted:
/// the result is the inner value times `n` divided by the accuracy, and the largest `u128` where
/// that quotient does not fit.
#[verifier::external_body]
fn outer_saturating_mul_int(a: u128, n: u128) -> (r: u128)
    ensures
        r == saturate(fixed_scaled(a as nat, n as nat), u128::MAX as nat),
{
    sp_runtime::FixedU128::from_inner(a).saturating_mul_int(n)
}

/// Calls the operator `*` of `sp_runtime::Perquintill` on a `u64`. Trusted: the result is `x`
/// times the number of parts divided by the accuracy, rounded to the nearest integer, an exact
/// half down.
#[verifier::external_body]
fn outer_perquintill_mul(parts: u64, x: u64) -> (r: u64)
    requires
        parts <= ACCURACY,
    ensures
        r == portion(parts as nat, x as nat),
{
    sp_runtime::Perquintill::from_parts(parts) * x
}

/// `x` times `parts / ACCURACY`, rounded to the nearest integer, an exact half down.
pub open spec fn portion(parts: nat, x: nat) -> nat {
    let product = parts * x;
    if product % (ACCURACY as nat) > ACCURACY as nat / 2 {
        product / (ACCURACY as nat) + 1
    } else {
        product / (ACCURACY as nat)
    }
}

/// An unsigned fixed-point number with eighteen decimal places: `inner / ACCURACY`.
#[derive(Clone, Copy, PartialEq, Eq, Debug, Structural)]
pub struct FixedU128 {
    pub inner: u128,
}

impl FixedU128 {
    /// The number of the given inner value.
    pub fn from_inner(inner: u128) -> (r: Self)
        ensures
            r.inner == inner,
    {
        FixedU128 { inner }
    }

    /// The inner value.
    pub fn into_inner(self) -> (r: u128)
        ensures
            r == self.inner,
    {
        self.inner
    }

    /// Zero.
    pub fn zero() -> (r: Self)
        ensures
            r.inner == 0,
    {
        FixedU128 { inner: 0 }
    }

    /// One.
    pub fn one() -> (r: Self)
        ensures
            r.inner == ACCURACY,
    {
        FixedU128 { inner: ACCURACY }
    }

    /// The integer `n`. Every 64-bit integer is in range.
    pub fn saturating_from_integer(n: u64) -> (r: Self)
        ensures
            r.inner == n * ACCURACY,
    {
        FixedU128 { inner: n as u128 * ACCURACY }
    }

    /// The fraction `n / d`, rounded, and the largest number where it is out of range.
    pub fn saturating_from_rational(n: u128, d: u64) -> (r: Self)
        requires
            d > 0,
        ensures
            r.inner == fixed_ratio(n as nat, d as nat),
    {
        FixedU128 { inner: outer_saturating_from_rational(n, d) }
    }

    /// The sum, or the largest number where the sum is out of range.
    pub fn saturating_add(self, rhs: Self) -> (r: Self)
        ensures
            r.inner == saturate((self.inner + rhs.inner) as nat, u128::MAX as nat),
    {
        FixedU128 { inner: self.inner.saturating_add(rhs.inner) }
    }

    /// The difference, or zero where `rhs` is the larger number.
    pub fn saturating_sub(self, rhs: Self) -> (r: Self)
        ensures
            r.inner == if self.inner >= rhs.inner {
                self.inner - rhs.inner
            } else {
                0
            },
    {
        FixedU128 { inner: self.inner.saturating_sub(rhs.inner) }
    }

    /// The product, rounded, or the largest number where the product is out of range.
    pub fn saturating_mul(self, rhs: Self) -> (r: Self)
        ensures
            r.inner == fixed_product(self.inner as nat, rhs.inner as nat),
    {
        FixedU128 { inner: outer_saturating_mul(self.inner, rhs.inner) }
    }

    /// The quotient, rounded.
    pub fn div(self, rhs: Self) -> (r: Self)
        requires
            rhs.inner > 0,
            multiply_by_rational(self.inner as nat, ACCURACY as nat, rhs.inner as nat)
                <= u128::MAX,
        ensures
            r.inner == multiply_by_rational(
                self.inner as nat,
                ACCURACY as nat,
                rhs.inner as nat,
            ),
    {
        FixedU128 { inner: outer_div(self.inner, rhs.inner) }
    }

    /// The integer `n` scaled by this number, rounded, or the largest integer where the product
    /// is out of range.
    pub fn saturating_mul_int(self, n: u128) -> (r: u128)
        ensures
            r == saturate(fixed_scaled(self.inner as nat, n as nat), u128::MAX as nat),
    {
        outer_saturating_mul_int(self.inner, n)
    }

    /// The larger of two numbers.
    pub fn max(self, other: Self) -> (r: Self)
        ensures
            r.inner == if self.inner >= other.inner {
                self.inner
            } else {
                other.inner
            },
    {
        if self.inner >= other.inner {
            self
        } else {
            other
        }
    }
}

impl Default for FixedU128 {
    /// Zero.
    fn default() -> (r: Self)
        ensures
            r.inner == 0,
    {
        FixedU128 { inner: 0 }
    }
}

/// A portion of one, in parts of `ACCURACY`.
#[derive(Clone, Copy, PartialEq, Eq, Debug, Structural)]
pub struct Perquintill {
    parts: u64,
}

impl Perquintill {
    /// The number of parts.
    pub closed spec fn spec_parts(self) -> nat {
        self.parts as nat
    }

    /// The portion of the given number of parts.
    pub closed spec fn spec_from_parts(parts: u64) -> Self {
        Perquintill { parts }
    }

    #[verifier::type_invariant]
    spec fn well_formed(self) -> bool {
        self.parts <= ACCURACY
    }

    /// The portion of the given number of parts, at most one.
    pub fn from_parts(parts: u64) -> (r: Self)
        ensures
            r.spec_parts() == saturate(parts as nat, ACCURACY as nat),
            parts <= ACCURACY ==> r == Self::spec_from_parts(parts),
    {
        if parts as u128 > ACCURACY {
            Perquintill { parts: 1_000_000_000_000_000_000 }
        } else {
            Perquintill { parts }
        }
    }

    /// The number of parts.
    pub fn deconstruct(self) -> (r: u64)
        ensures
            r == self.spec_parts(),
            r <= ACCURACY,
    {
        proof {
            use_type_invariant(&self);
        }
        self.parts
    }

    /// This portion of `x`, rounded to the nearest integer.
    pub fn mul(self, x: u64) -> (r: u64)
        ensures
            r == portion(self.spec_parts(), x as nat),
            self.spec_parts() <= ACCURACY,
            r <= x,
    {
        proof {
            use_type_invariant(&self);
            lemma_portion_bounded(self.parts as nat, x as nat);
        }
        outer_perquintill_mul(self.parts, x)
    }
}

/// A portion of `x` is at most `x`.
pub proof fn lemma_portion_bounded(parts: nat, x: nat)
    requires
        parts <= ACCURACY,
    ensures
        portion(parts, x) <= x,
{
    let product = parts * x;
    let a = ACCURACY as nat;
    assert(product <= a * x) by (nonlinear_arith)
        requires
            product == parts * x,
            parts <= a,
    ;
    vstd::arithmetic::div_mod::lemma_fundamental_div_mod(product as int, a as int);
    if product / a >= x {
        assert(product / a == x && product % a == 0) by (nonlinear_arith)
            requires
                product <= a * x,
                product == a * (product / a) + product % a,
                product / a >= x,
                a > 0,
        ;
    }
}

/// Rounded division of a product grows with its first factor.
pub proof fn lemma_multiply_by_rational_monotone(a1: nat, a2: nat, b: nat, c: nat)
    requires
        a1 <= a2,
        c > 0,
    ensures
        multiply_by_rational(a1, b, c) <= multiply_by_rational(a2, b, c),
{
    let p1 = a1 * b;
    let p2 = a2 * b;
    assert(p1 <= p2) by (nonlinear_arith)
        requires
            p1 == a1 * b,
            p2 == a2 * b,
            a1 <= a2,
    ;
    vstd::arithmetic::div_mod::lemma_div_is_ordered(p1 as int, p2 as int, c as int);
    vstd::arithmetic::div_mod::lemma_fundamental_div_mod(p1 as int, c as int);
    vstd::arithmetic::div_mod::lemma_fundamental_div_mod(p2 as int, c as int);
    if p1 / c == p2 / c {
        assert(p1 % c <= p2 % c);
    }
}

/// A number within the limit is kept, and one above it becomes the limit.
pub proof fn law_saturation_cuts_at_the_limit(x: nat, limit: nat)
    ensures
        saturate(x, limit) <= x,
        saturate(x, limit) <= limit,
        saturate(x, limit) == x || saturate(x, limit) == limit,
{
}

/// Whether `q` is the quotient as it is rounded: down where the product fits 128 bits or the
/// divisor fits 32 bits, and to the nearest integer otherwise, an exact half down.
pub open spec fn rounds_to(product: nat, divisor: nat, q: nat) -> bool {
    if product <= u128::MAX || divisor <= u32::MAX {
        q * divisor <= product < q * divisor + divisor
    } else {
        2 * product <= 2 * (q * divisor) + divisor && 2 * (q * divisor) < 2 * product + divisor
    }
}

/// The quotient is off by less than one. It is never above the exact one where the product fits
/// 128 bits or the divisor fits 32 bits, and is otherwise off by at most a half.
pub proof fn law_quotient_is_rounded(a: nat, b: nat, c: nat)
    requires
        c > 0,
    ensures
        a * b <= u128::MAX || c <= u32::MAX ==> multiply_by_rational(a, b, c) * c <= a * b
            < multiply_by_rational(a, b, c) * c + c,
        a * b > u128::MAX && c > u32::MAX ==> 2 * (a * b) <= 2 * (multiply_by_rational(a, b, c)
            * c) + c && 2 * (multiply_by_rational(a, b, c) * c) < 2 * (a * b) + c,
        rounds_to(a * b, c, multiply_by_rational(a, b, c)),
{
    let product = a * b;
    vstd::arithmetic::div_mod::lemma_fundamental_div_mod(product as int, c as int);
    let q = product / c;
    assert(c * q == q * c && (q + 1) * c == q * c + c) by (nonlinear_arith);
}

/// There is one rounded quotient.
pub proof fn lemma_rounded_quotient(a: nat, b: nat, c: nat, q: nat)
    requires
        c > 0,
        rounds_to(a * b, c, q),
    ensures
        multiply_by_rational(a, b, c) == q,
{
    law_quotient_is_rounded(a, b, c);
    let r = multiply_by_rational(a, b, c);
    if q < r {
        assert(r * c >= q * c + c) by (nonlinear_arith)
            requires
                r >= q + 1,
        ;
    } else if r < q {
        assert(q * c >= r * c + c) by (nonlinear_arith)
            requires
                q >= r + 1,
        ;
    }
}

/// The product of two fixed-point numbers is the rounded quotient of the inner values' product by
/// the accuracy, cut to 128 bits.
pub proof fn law_fixed_product_is_rounded(a: nat, b: nat, q: nat)
    requires
        rounds_to(a * b, 1_000_000_000_000_000_000, q),
    ensures
        fixed_product(a, b) == if q <= u128::MAX {
            q
        } else {
            u128::MAX as nat
        },
        fixed_scaled(a, b) == q,
{
    lemma_rounded_quotient(a, b, ACCURACY as nat, q);
}

/// The fixed-point number of a fraction is the rounded quotient, in parts of the accuracy, cut to
/// 128 bits.
pub proof fn law_fixed_ratio_is_rounded(n: nat, d: nat, q: nat)
    requires
        d > 0,
        rounds_to(n * 1_000_000_000_000_000_000, d, q),
    ensures
        fixed_ratio(n, d) == if q <= u128::MAX {
            q
        } else {
            u128::MAX as nat
        },
{
    lemma_rounded_quotient(n, ACCURACY as nat, d, q);
}

/// A portion is the integer nearest to the exact one, an exact half down.
pub proof fn law_portion_is_the_nearest_integer(parts: nat, x: nat)
    ensures
        2 * (parts * x) <= 2 * (portion(parts, x) * 1_000_000_000_000_000_000)
            + 1_000_000_000_000_000_000,
        2 * (portion(parts, x) * 1_000_000_000_000_000_000) < 2 * (parts * x)
            + 1_000_000_000_000_000_000,
{
    vstd::arithmetic::div_mod::lemma_fundamental_div_mod((parts * x) as int, ACCURACY as int);
}

/// There is one nearest integer.
pub proof fn lemma_portion(parts: nat, x: nat, q: nat)
    requires
        2 * (parts * x) <= 2 * (q * 1_000_000_000_000_000_000) + 1_000_000_000_000_000_000,
        2 * (q * 1_000_000_000_000_000_000) < 2 * (parts * x) + 1_000_000_000_000_000_000,
    ensures
        portion(parts, x) == q,
{
    law_portion_is_the_nearest_integer(parts, x);
}

/// The portion of a number of parts has that number of parts.
pub proof fn law_portion_has_its_parts(parts: u64)
    ensures
        Perquintill::spec_from_parts(parts).spec_parts() == parts,
{
}

} // verus!
