//! The unsigned integers that fees are counted in.

use vstd::prelude::*;

use crate::fixed::{fixed_scaled, saturate, FixedU128};

verus! {

/// An unsigned integer type with saturating arithmetic.
pub trait Balance: Copy + Sized {
    /// The integer.
    spec fn amount(self) -> nat;

    /// The largest integer of the type.
    spec fn limit() -> nat;

    /// The value of the given amount.
    spec fn of_amount(amount: nat) -> Self;

    /// An integer of the type is at most the limit, and the limit is at least that of `u32`.
    proof fn lemma_amount_bounded(self)
        ensures
            self.amount() <= Self::limit(),
            u32::MAX <= Self::limit(),
    ;

    /// A value is the one of its amount.
    proof fn lemma_of_amount(self)
        ensures
            Self::of_amount(self.amount()) == self,
    ;

    /// The value of an amount within the limit has that amount.
    proof fn lemma_amount_of(amount: nat)
        requires
            amount <= Self::limit(),
        ensures
            Self::of_amount(amount).amount() == amount,
    ;

    /// Zero.
    fn zero() -> (r: Self)
        ensures
            r.amount() == 0,
    ;

    /// Whether the integer is zero.
    fn is_zero(self) -> (r: bool)
        ensures
            r == (self.amount() == 0),
    ;

    /// The integer `n`.
    fn from_u32(n: u32) -> (r: Self)
        ensures
            r.amount() == n,
    ;

    /// The integer `n`, or the limit where `n` lies above it.
    fn saturated_from_u64(n: u64) -> (r: Self)
        ensures
            r.amount() == saturate(n as nat, Self::limit()),
    ;

    /// The integer as a `u64`, or the largest `u64` where it is out of range.
    fn saturated_into_u64(self) -> (r: u64)
        ensures
            r == saturate(self.amount(), u64::MAX as nat),
    ;

    /// The integer as a `u128`, which holds every balance.
    fn to_u128(self) -> (r: u128)
        ensures
            r == self.amount(),
    ;

    /// The sum, or the limit where the sum lies above it.
    fn saturating_add(self, rhs: Self) -> (r: Self)
        ensures
            r.amount() == saturate(self.amount() + rhs.amount(), Self::limit()),
    ;

    /// The difference, or zero where `rhs` is the larger.
    fn saturating_sub(self, rhs: Self) -> (r: Self)
        ensures
            r.amount() == if self.amount() >= rhs.amount() {
                self.amount() - rhs.amount()
            } else {
                0
            },
    ;

    /// The product, or the limit where the product lies above it.
    fn saturating_mul(self, rhs: Self) -> (r: Self)
        ensures
            r.amount() == saturate(self.amount() * rhs.amount(), Self::limit()),
    ;

    /// The integer scaled by a fixed-point number, or the limit where the product lies above it.
    fn scaled_by(self, multiplier: FixedU128) -> (r: Self)
        ensures
            r.amount() == saturate(
                fixed_scaled(multiplier.inner as nat, self.amount()),
                Self::limit(),
            ),
    ;
}

impl Balance for u32 {
    open spec fn amount(self) -> nat {
        self as nat
    }

    open spec fn limit() -> nat {
        u32::MAX as nat
    }

    open spec fn of_amount(amount: nat) -> Self {
        amount as u32
    }

    proof fn lemma_amount_bounded(self) {
    }

    proof fn lemma_of_amount(self) {
    }

    proof fn lemma_amount_of(amount: nat) {
    }

    fn zero() -> (r: Self) {
        0
    }

    fn is_zero(self) -> (r: bool) {
        self == 0
    }

    fn from_u32(n: u32) -> (r: Self) {
        n
    }

    fn saturated_from_u64(n: u64) -> (r: Self) {
        if n <= u32::MAX as u64 {
            n as u32
        } else {
            u32::MAX
        }
    }

    fn saturated_into_u64(self) -> (r: u64) {
        self as u64
    }

    fn to_u128(self) -> (r: u128) {
        self as u128
    }

    fn saturating_add(self, rhs: Self) -> (r: Self) {
        if rhs <= u32::MAX - self {
            self + rhs
        } else {
            u32::MAX
        }
    }

    fn saturating_sub(self, rhs: Self) -> (r: Self) {
        if self >= rhs {
            self - rhs
        } else {
            0
        }
    }

    fn saturating_mul(self, rhs: Self) -> (r: Self) {
        match self.checked_mul(rhs) {
            Some(product) => product,
            None => u32::MAX,
        }
    }

    fn scaled_by(self, multiplier: FixedU128) -> (r: Self) {
        let product: u128 = multiplier.saturating_mul_int(self as u128);
        if product <= u32::MAX as u128 {
            product as u32
        } else {
            u32::MAX
        }
    }
}

impl Balance for u64 {
    open spec fn amount(self) -> nat {
        self as nat
    }

    open spec fn limit() -> nat {
        u64::MAX as nat
    }

    open spec fn of_amount(amount: nat) -> Self {
        amount as u64
    }

    proof fn lemma_amount_bounded(self) {
    }

    proof fn lemma_of_amount(self) {
    }

    proof fn lemma_amount_of(amount: nat) {
    }

    fn zero() -> (r: Self) {
        0
    }

    fn is_zero(self) -> (r: bool) {
        self == 0
    }

    fn from_u32(n: u32) -> (r: Self) {
        n as u64
    }

    fn saturated_from_u64(n: u64) -> (r: Self) {
        n
    }

    fn saturated_into_u64(self) -> (r: u64) {
        self
    }

    fn to_u128(self) -> (r: u128) {
        self as u128
    }

    fn saturating_add(self, rhs: Self) -> (r: Self) {
        if rhs <= u64::MAX - self {
            self + rhs
        } else {
            u64::MAX
        }
    }

    fn saturating_sub(self, rhs: Self) -> (r: Self) {
        if self >= rhs {
            self - rhs
        } else {
            0
        }
    }

    fn saturating_mul(self, rhs: Self) -> (r: Self) {
        match self.checked_mul(rhs) {
            Some(product) => product,
            None => u64::MAX,
        }
    }

    fn scaled_by(self, multiplier: FixedU128) -> (r: Self) {
        let product: u128 = multiplier.saturating_mul_int(self as u128);
        if product <= u64::MAX as u128 {
            product as u64
        } else {
            u64::MAX
        }
    }
}

impl Balance for u128 {
    open spec fn amount(self) -> nat {
        self as nat
    }

    open spec fn limit() -> nat {
        u128::MAX as nat
    }

    open spec fn of_amount(amount: nat) -> Self {
        amount as u128
    }

    proof fn lemma_amount_bounded(self) {
    }

    proof fn lemma_of_amount(self) {
    }

    proof fn lemma_amount_of(amount: nat) {
    }

    fn zero() -> (r: Self) {
        0
    }

    fn is_zero(self) -> (r: bool) {
        self == 0
    }

    fn from_u32(n: u32) -> (r: Self) {
        n as u128
    }

    fn saturated_from_u64(n: u64) -> (r: Self) {
        n as u128
    }

    fn saturated_into_u64(self) -> (r: u64) {
        if self <= u64::MAX as u128 {
            self as u64
        } else {
            u64::MAX
        }
    }

    fn to_u128(self) -> (r: u128) {
        self
    }

    fn saturating_add(self, rhs: Self) -> (r: Self) {
        if rhs <= u128::MAX - self {
            self + rhs
        } else {
            u128::MAX
        }
    }

    fn saturating_sub(self, rhs: Self) -> (r: Self) {
        if self >= rhs {
            self - rhs
        } else {
            0
        }
    }

    fn saturating_mul(self, rhs: Self) -> (r: Self) {
        match self.checked_mul(rhs) {
            Some(product) => product,
            None => u128::MAX,
        }
    }

    fn scaled_by(self, multiplier: FixedU128) -> (r: Self) {
        multiplier.saturating_mul_int(self)
    }
}

} // verus!
