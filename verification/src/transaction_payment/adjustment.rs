//! The fee multiplier and how it follows the fullness of blocks.

use vstd::prelude::*;

use crate::fixed::{
    fixed_product, fixed_ratio, law_fixed_product_is_rounded, law_fixed_ratio_is_rounded,
    law_portion_has_its_parts, law_quotient_is_rounded, lemma_multiply_by_rational_monotone,
    lemma_portion, lemma_portion_bounded, lemma_rounded_quotient, multiply_by_rational, portion,
    rounds_to, saturate, FixedU128, Perquintill, ACCURACY,
};
use crate::weights::{BlockWeights, ConsumedWeight, DispatchClass, Weight};

verus! {

/// The factor that weight fees are multiplied by.
pub type Multiplier = FixedU128;

/// A rule that turns the multiplier of one block into that of the next.
pub trait MultiplierUpdate {
    /// The smallest multiplier.
    spec fn spec_min(&self) -> Multiplier;

    /// The portion of the normal capacity that blocks should use.
    spec fn spec_target(&self) -> Perquintill;

    /// How fast the multiplier moves.
    spec fn spec_variability(&self) -> Multiplier;

    /// The multiplier that follows `previous` after a block with the given limits that used the
    /// given weight.
    spec fn next(
        &self,
        previous: Multiplier,
        weights: BlockWeights,
        consumed: ConsumedWeight,
    ) -> Multiplier;

    /// The smallest multiplier.
    fn min(&self) -> (r: Multiplier)
        ensures
            r == self.spec_min(),
    ;

    /// The portion of the normal capacity that blocks should use.
    fn target(&self) -> (r: Perquintill)
        ensures
            r == self.spec_target(),
    ;

    /// How fast the multiplier moves.
    fn variability(&self) -> (r: Multiplier)
        ensures
            r == self.spec_variability(),
    ;

    /// The multiplier that follows `previous`.
    fn convert(
        &self,
        previous: Multiplier,
        weights: &BlockWeights,
        consumed: &ConsumedWeight,
    ) -> (r: Multiplier)
        ensures
            r == self.next(previous, *weights, *consumed),
    ;
}

/// The rule whose multipliers are all zero, whatever came before.
impl MultiplierUpdate for () {
    open spec fn spec_min(&self) -> Multiplier {
        FixedU128 { inner: 0 }
    }

    open spec fn spec_target(&self) -> Perquintill {
        Perquintill::spec_from_parts(0)
    }

    open spec fn spec_variability(&self) -> Multiplier {
        FixedU128 { inner: 0 }
    }

    open spec fn next(
        &self,
        previous: Multiplier,
        weights: BlockWeights,
        consumed: ConsumedWeight,
    ) -> Multiplier {
        FixedU128 { inner: 0 }
    }

    fn min(&self) -> (r: Multiplier) {
        FixedU128::zero()
    }

    fn target(&self) -> (r: Perquintill) {
        Perquintill::from_parts(0)
    }

    fn variability(&self) -> (r: Multiplier) {
        FixedU128::zero()
    }

    fn convert(
        &self,
        previous: Multiplier,
        weights: &BlockWeights,
        consumed: &ConsumedWeight,
    ) -> (r: Multiplier) {
        FixedU128::zero()
    }
}

/// The rule that raises the multiplier after blocks that are fuller than a target, and lowers it
/// after emptier ones.
///
/// Where `s` is the weight of the block's normal transactions, `s'` the target, `m` the weight
/// that normal transactions may have in a block, `v` the variability, and
///
/// ```text
/// diff = (s - s') / m
/// t1 = v * diff
/// t2 = (v * diff)^2 / 2
/// ```
///
/// the next multiplier is `previous * (1 + t1 + t2)`, and never less than the minimum.
#[derive(Clone, Copy, Debug)]
pub struct TargetedFeeAdjustment {
    /// The portion of the normal capacity that blocks should use.
    pub target: Perquintill,
    /// How fast the multiplier moves.
    pub variability: Multiplier,
    /// The smallest multiplier.
    pub min: Multiplier,
}

impl TargetedFeeAdjustment {
    /// `s'`: the weight that the normal transactions of a block should have.
    pub open spec fn target_weight(self, weights: BlockWeights) -> nat {
        portion(self.target.spec_parts(), weights.normal_capacity() as nat)
    }

    /// `s`: the weight that the normal transactions of the block had, at most their capacity.
    pub open spec fn block_weight(weights: BlockWeights, consumed: ConsumedWeight) -> nat {
        saturate(consumed.normal as nat, weights.normal_capacity() as nat)
    }

    /// Whether the block was at least as full as the target.
    pub open spec fn at_or_above_target(
        self,
        weights: BlockWeights,
        consumed: ConsumedWeight,
    ) -> bool {
        Self::block_weight(weights, consumed) >= self.target_weight(weights)
    }

    /// The magnitude of `diff`, as an inner value.
    pub open spec fn diff(self, weights: BlockWeights, consumed: ConsumedWeight) -> nat {
        let block = Self::block_weight(weights, consumed);
        let target = self.target_weight(weights);
        let distance = if block >= target {
            block - target
        } else {
            target - block
        };
        let capacity = weights.normal_capacity();
        fixed_ratio(
            distance as nat,
            if capacity == 0 {
                1
            } else {
                capacity as nat
            },
        )
    }

    /// The magnitude of `t1`, as an inner value.
    pub open spec fn first_term(self, weights: BlockWeights, consumed: ConsumedWeight) -> nat {
        fixed_product(self.variability.inner as nat, self.diff(weights, consumed))
    }

    /// `t2`, as an inner value.
    pub open spec fn second_term(self, weights: BlockWeights, consumed: ConsumedWeight) -> nat {
        let v = self.variability.inner as nat;
        let diff = self.diff(weights, consumed);
        fixed_product(fixed_product(v, v) / 2, fixed_product(diff, diff))
    }

    /// The multiplier that the step starts from: the previous one, raised to the minimum.
    pub open spec fn start(self, previous: Multiplier) -> nat {
        if previous.inner >= self.min.inner {
            previous.inner as nat
        } else {
            self.min.inner as nat
        }
    }

    /// The magnitude of the step, as an inner value.
    pub open spec fn step(
        self,
        previous: Multiplier,
        weights: BlockWeights,
        consumed: ConsumedWeight,
    ) -> nat {
        let first = self.first_term(weights, consumed);
        let second = self.second_term(weights, consumed);
        let change = if self.at_or_above_target(weights, consumed) {
            saturate(first + second, u128::MAX as nat)
        } else if first >= second {
            (first - second) as nat
        } else {
            0
        };
        fixed_product(change, self.start(previous))
    }

    /// The next multiplier before it is raised to the minimum, as an inner value.
    pub open spec fn moved(
        self,
        previous: Multiplier,
        weights: BlockWeights,
        consumed: ConsumedWeight,
    ) -> nat {
        let start = self.start(previous);
        let step = self.step(previous, weights, consumed);
        if self.at_or_above_target(weights, consumed) {
            saturate(start + step, u128::MAX as nat)
        } else if start >= step {
            (start - step) as nat
        } else {
            0
        }
    }
}

impl MultiplierUpdate for TargetedFeeAdjustment {
    open spec fn spec_min(&self) -> Multiplier {
        self.min
    }

    open spec fn spec_target(&self) -> Perquintill {
        self.target
    }

    open spec fn spec_variability(&self) -> Multiplier {
        self.variability
    }

    open spec fn next(
        &self,
        previous: Multiplier,
        weights: BlockWeights,
        consumed: ConsumedWeight,
    ) -> Multiplier {
        let moved = self.moved(previous, weights, consumed);
        FixedU128 {
            inner: if moved >= self.min.inner {
                moved as u128
            } else {
                self.min.inner
            },
        }
    }

    fn min(&self) -> (r: Multiplier) {
        self.min
    }

    fn target(&self) -> (r: Perquintill) {
        self.target
    }

    fn variability(&self) -> (r: Multiplier) {
        self.variability
    }

    fn convert(
        &self,
        previous: Multiplier,
        weights: &BlockWeights,
        consumed: &ConsumedWeight,
    ) -> (r: Multiplier) {
        let min_multiplier = self.min;
        let previous = previous.max(min_multiplier);

        let normal_max_weight: u64 = match weights.get(DispatchClass::Normal).max_total {
            Some(max_total) => max_total,
            None => weights.max_block,
        };
        let consumed_weight: u64 = *consumed.get(DispatchClass::Normal);
        let block_weight: u64 = if consumed_weight <= normal_max_weight {
            consumed_weight
        } else {
            normal_max_weight
        };

        let target_weight: u64 = self.target.mul(normal_max_weight);

        let positive = block_weight >= target_weight;
        let diff_abs: u64 = if positive {
            block_weight - target_weight
        } else {
            target_weight - block_weight
        };
        let divisor: u64 = if normal_max_weight == 0 {
            1
        } else {
            normal_max_weight
        };

        let v = self.variability;
        let diff = Multiplier::saturating_from_rational(diff_abs as u128, divisor);
        let diff_squared = diff.saturating_mul(diff);

        let v_squared = v.saturating_mul(v);
        proof {
            lemma_half(v_squared.inner as nat);
        }
        let v_squared_2 = v_squared.div(Multiplier::saturating_from_integer(2));

        let first_term = v.saturating_mul(diff);
        let second_term = v_squared_2.saturating_mul(diff_squared);

        if positive {
            let excess = first_term.saturating_add(second_term).saturating_mul(previous);
            previous.saturating_add(excess).max(min_multiplier)
        } else {
            let negative = first_term.saturating_sub(second_term).saturating_mul(previous);
            previous.saturating_sub(negative).max(min_multiplier)
        }
    }
}

/// Dividing a fixed-point number by two halves its inner value, rounding down.
proof fn lemma_half(inner: nat)
    ensures
        multiply_by_rational(inner, ACCURACY as nat, 2 * ACCURACY as nat) == inner / 2,
{
    let a = ACCURACY as nat;
    let product = inner * a;
    let c = 2 * a;
    let half = inner / 2;
    let odd = inner % 2;
    assert(product == half * c + odd * a) by (nonlinear_arith)
        requires
            product == inner * a,
            c == 2 * a,
            inner == 2 * half + odd,
    ;
    assert(0 <= odd * a <= a) by (nonlinear_arith)
        requires
            0 <= odd <= 1,
            a > 0,
    ;
    vstd::arithmetic::div_mod::lemma_fundamental_div_mod_converse(
        product as int,
        c as int,
        half as int,
        (odd * a) as int,
    );
}

/// Fixed-point products grow with both factors.
pub proof fn lemma_fixed_product_monotone(a1: nat, a2: nat, b1: nat, b2: nat)
    requires
        a1 <= a2,
        b1 <= b2,
    ensures
        fixed_product(a1, b1) <= fixed_product(a2, b2),
{
    lemma_multiply_by_rational_monotone(a1, a2, b1, ACCURACY as nat);
    lemma_multiply_by_rational_monotone(b1, b2, a2, ACCURACY as nat);
    assert(a2 * b1 == b1 * a2 && a2 * b2 == b2 * a2) by (nonlinear_arith);
}

/// Multiplying by one changes nothing.
proof fn lemma_product_with_one(a: nat)
    requires
        a <= u128::MAX,
    ensures
        fixed_product(a, ACCURACY as nat) == a,
{
    vstd::arithmetic::div_mod::lemma_fundamental_div_mod_converse(
        (a * ACCURACY as nat) as int,
        ACCURACY as int,
        a as int,
        0,
    );
}

/// Multiplying by zero gives zero.
proof fn lemma_product_with_zero(a: nat)
    ensures
        fixed_product(a, 0) == 0,
        fixed_product(0, a) == 0,
{
    assert(a * 0 == 0 && 0 * a == 0) by (nonlinear_arith);
}

/// The multiplier is never less than the minimum.
pub proof fn law_multiplier_is_at_least_the_minimum(
    rule: TargetedFeeAdjustment,
    previous: Multiplier,
    weights: BlockWeights,
    consumed: ConsumedWeight,
)
    ensures
        rule.next(previous, weights, consumed).inner >= rule.min.inner,
{
}

/// A multiplier below the minimum counts as the minimum.
pub proof fn law_low_multiplier_counts_as_the_minimum(
    rule: TargetedFeeAdjustment,
    previous: Multiplier,
    weights: BlockWeights,
    consumed: ConsumedWeight,
)
    ensures
        rule.next(previous, weights, consumed) == rule.next(
            FixedU128 {
                inner: if previous.inner >= rule.min.inner {
                    previous.inner
                } else {
                    rule.min.inner
                },
            },
            weights,
            consumed,
        ),
{
}

/// What is left of `s` when the part `change` of it is taken away, as inner values.
spec fn left_over(change: nat, s: nat) -> nat {
    let part = fixed_product(change, s);
    if s >= part {
        (s - part) as nat
    } else {
        0
    }
}

/// More is left over of more, but for one unit where rounding sets in between the two.
proof fn lemma_left_over_keeps_order(change: nat, low: nat, high: nat)
    requires
        low <= high <= u128::MAX,
    ensures
        left_over(change, low) <= left_over(change, high) + 1,
        change <= ACCURACY / 2 || change >= ACCURACY || (change * low <= u128::MAX <==> change
            * high <= u128::MAX) ==> left_over(change, low) <= left_over(change, high),
{
    let a = ACCURACY as nat;
    let p1 = change * low;
    let p2 = change * high;
    let d = (high - low) as nat;
    vstd::arithmetic::div_mod::lemma_fundamental_div_mod(p1 as int, a as int);
    vstd::arithmetic::div_mod::lemma_fundamental_div_mod(p2 as int, a as int);
    if change >= a {
        assert(p1 / a >= low && p2 / a >= high) by (nonlinear_arith)
            requires
                p1 == change * low,
                p2 == change * high,
                change >= a,
                a > 0,
                p1 == a * (p1 / a) + p1 % a,
                p2 == a * (p2 / a) + p2 % a,
                0 <= p1 % a < a,
                0 <= p2 % a < a,
        ;
    } else {
        let gap = (a - change) as nat;
        assert(p2 - p1 == a * d - gap * d) by (nonlinear_arith)
            requires
                p1 == change * low,
                p2 == change * high,
                d == high - low,
                gap == a - change,
        ;
        assert(p1 + gap * low == a * low && p2 + gap * high == a * high) by (nonlinear_arith)
            requires
                p1 == change * low,
                p2 == change * high,
                gap == a - change,
        ;
        assert(gap * low >= low && gap * high >= high && gap * d >= d) by (nonlinear_arith)
            requires
                gap >= 1,
        ;
        if d > 0 {
            assert(gap * d >= gap) by (nonlinear_arith)
                requires
                    d >= 1,
            ;
        }
    }
}

/// After the same block the higher of two multipliers is still at least the other. Below the
/// target this is so where at most a half of the multiplier is taken away, or all of it, or where
/// both are rounded alike.
pub proof fn law_higher_multiplier_stays_higher(
    rule: TargetedFeeAdjustment,
    lower: Multiplier,
    upper: Multiplier,
    weights: BlockWeights,
    consumed: ConsumedWeight,
)
    requires
        lower.inner <= upper.inner,
        !rule.at_or_above_target(weights, consumed) ==> {
            let change = rule.first_term(weights, consumed) - rule.second_term(weights, consumed);
            ||| change <= ACCURACY / 2
            ||| change >= ACCURACY
            ||| change * rule.start(lower) <= u128::MAX <==> change * rule.start(upper) <= u128::MAX
        },
    ensures
        rule.next(lower, weights, consumed).inner <= rule.next(upper, weights, consumed).inner,
{
    let first = rule.first_term(weights, consumed);
    let second = rule.second_term(weights, consumed);
    if rule.at_or_above_target(weights, consumed) {
        let change = saturate(first + second, u128::MAX as nat);
        lemma_fixed_product_monotone(change, change, rule.start(lower), rule.start(upper));
    } else {
        let change: nat = if first >= second {
            (first - second) as nat
        } else {
            0
        };
        lemma_left_over_keeps_order(change, rule.start(lower), rule.start(upper));
    }
}

/// After the same block the higher of two multipliers is at least the other, but for one unit of
/// the last place, whatever the block and the rule are.
pub proof fn law_multipliers_keep_their_order_but_for_one_unit(
    rule: TargetedFeeAdjustment,
    lower: Multiplier,
    upper: Multiplier,
    weights: BlockWeights,
    consumed: ConsumedWeight,
)
    requires
        lower.inner <= upper.inner,
    ensures
        rule.next(lower, weights, consumed).inner <= rule.next(upper, weights, consumed).inner + 1,
{
    let first = rule.first_term(weights, consumed);
    let second = rule.second_term(weights, consumed);
    if rule.at_or_above_target(weights, consumed) {
        law_higher_multiplier_stays_higher(rule, lower, upper, weights, consumed);
    } else {
        let change: nat = if first >= second {
            (first - second) as nat
        } else {
            0
        };
        lemma_left_over_keeps_order(change, rule.start(lower), rule.start(upper));
    }
}

/// After a block at or above the target the multiplier does not fall.
pub proof fn law_full_blocks_do_not_lower_the_multiplier(
    rule: TargetedFeeAdjustment,
    previous: Multiplier,
    weights: BlockWeights,
    consumed: ConsumedWeight,
)
    requires
        rule.at_or_above_target(weights, consumed),
    ensures
        rule.next(previous, weights, consumed).inner >= previous.inner,
{
}

/// After a block below the target the multiplier does not rise, save that it is at least the
/// minimum.
pub proof fn law_empty_blocks_do_not_raise_the_multiplier(
    rule: TargetedFeeAdjustment,
    previous: Multiplier,
    weights: BlockWeights,
    consumed: ConsumedWeight,
)
    requires
        !rule.at_or_above_target(weights, consumed),
    ensures
        rule.next(previous, weights, consumed).inner <= rule.start(previous),
{
}

/// After a block exactly at the target the multiplier is as before, save that it is at least the
/// minimum.
pub proof fn law_target_blocks_keep_the_multiplier(
    rule: TargetedFeeAdjustment,
    previous: Multiplier,
    weights: BlockWeights,
    consumed: ConsumedWeight,
)
    requires
        TargetedFeeAdjustment::block_weight(weights, consumed) == rule.target_weight(weights),
    ensures
        rule.next(previous, weights, consumed).inner == rule.start(previous),
{
    let v = rule.variability.inner as nat;
    assert(rule.diff(weights, consumed) == 0) by (nonlinear_arith)
        requires
            TargetedFeeAdjustment::block_weight(weights, consumed) == rule.target_weight(weights),
    ;
    lemma_product_with_zero(v);
    lemma_product_with_zero(0);
    lemma_product_with_zero(fixed_product(v, v) / 2);
    lemma_product_with_zero(rule.start(previous));
}

/// A multiplier that fell to zero never recovers where the minimum is zero.
pub proof fn law_zero_multiplier_stays_zero(
    rule: TargetedFeeAdjustment,
    previous: Multiplier,
    weights: BlockWeights,
    consumed: ConsumedWeight,
)
    requires
        previous.inner == 0,
        rule.min.inner == 0,
    ensures
        rule.next(previous, weights, consumed).inner == 0,
{
    let first = rule.first_term(weights, consumed);
    let second = rule.second_term(weights, consumed);
    lemma_product_with_zero(saturate(first + second, u128::MAX as nat));
    if first >= second {
        lemma_product_with_zero((first - second) as nat);
    } else {
        lemma_product_with_zero(0);
    }
}

/// A block is never further from the target than the whole normal capacity, so the difference
/// fits the multiplier without saturation.
pub proof fn law_diff_is_at_most_one(
    rule: TargetedFeeAdjustment,
    weights: BlockWeights,
    consumed: ConsumedWeight,
)
    requires
        rule.target.spec_parts() <= ACCURACY,
    ensures
        rule.diff(weights, consumed) <= ACCURACY,
{
    let capacity = weights.normal_capacity() as nat;
    let divisor: nat = if capacity == 0 {
        1
    } else {
        capacity
    };
    let a = ACCURACY as nat;
    let block = TargetedFeeAdjustment::block_weight(weights, consumed);
    let target = rule.target_weight(weights);
    lemma_portion_bounded(rule.target.spec_parts(), capacity);
    let distance: nat = if block >= target {
        (block - target) as nat
    } else {
        (target - block) as nat
    };
    let product = distance * a;
    assert(product <= u128::MAX && product <= divisor * a) by (nonlinear_arith)
        requires
            product == distance * a,
            distance <= divisor,
            distance <= u64::MAX,
            a == 1_000_000_000_000_000_000,
    ;
    vstd::arithmetic::div_mod::lemma_div_is_ordered(
        product as int,
        (divisor * a) as int,
        divisor as int,
    );
    vstd::arithmetic::div_mod::lemma_div_multiples_vanish(a as int, divisor as int);
}

/// Where the variability is at most two, the first term is at least the second, so that the step
/// down from a block below the target is not cut at zero.
pub proof fn law_first_term_dominates(
    rule: TargetedFeeAdjustment,
    weights: BlockWeights,
    consumed: ConsumedWeight,
)
    requires
        rule.target.spec_parts() <= ACCURACY,
        rule.variability.inner <= 2 * ACCURACY,
    ensures
        rule.first_term(weights, consumed) >= rule.second_term(weights, consumed),
{
    let v = rule.variability.inner as nat;
    let diff = rule.diff(weights, consumed);
    let a = ACCURACY as nat;
    law_diff_is_at_most_one(rule, weights, consumed);
    lemma_fixed_product_monotone(diff, diff, diff, a);
    lemma_product_with_one(diff);
    let square = v * v;
    assert(square <= u128::MAX && square <= 2 * v * a) by (nonlinear_arith)
        requires
            square == v * v,
            v <= 2 * a,
            a == 1_000_000_000_000_000_000,
    ;
    assert(fixed_product(v, v) == square / a) by {
        vstd::arithmetic::div_mod::lemma_div_is_ordered_by_denominator(square as int, 1, a as int);
    }
    assert(square / a <= 2 * v) by (nonlinear_arith)
        requires
            square <= 2 * v * a,
            a > 0,
    ;
    lemma_fixed_product_monotone(fixed_product(v, v) / 2, v, fixed_product(diff, diff), diff);
}

/// One block changes the multiplier by at most the factor that `v + v^2 / 2` gives.
pub proof fn law_step_is_bounded_by_the_variability(
    rule: TargetedFeeAdjustment,
    previous: Multiplier,
    weights: BlockWeights,
    consumed: ConsumedWeight,
)
    requires
        rule.target.spec_parts() <= ACCURACY,
    ensures
        ({
            let v = rule.variability.inner as nat;
            rule.step(previous, weights, consumed) <= fixed_product(
                saturate(v + fixed_product(v, v) / 2, u128::MAX as nat),
                rule.start(previous),
            )
        }),
{
    let v = rule.variability.inner as nat;
    let v2 = fixed_product(v, v) / 2;
    let a = ACCURACY as nat;
    let diff = rule.diff(weights, consumed);
    law_diff_is_at_most_one(rule, weights, consumed);
    lemma_fixed_product_monotone(v, v, diff, a);
    lemma_product_with_one(v);
    lemma_fixed_product_monotone(diff, diff, diff, a);
    lemma_product_with_one(diff);
    lemma_fixed_product_monotone(v2, v2, fixed_product(diff, diff), a);
    lemma_product_with_one(v2);
    let first = rule.first_term(weights, consumed);
    let second = rule.second_term(weights, consumed);
    let change: nat = if rule.at_or_above_target(weights, consumed) {
        saturate(first + second, u128::MAX as nat)
    } else if first >= second {
        (first - second) as nat
    } else {
        0
    };
    let start = rule.start(previous);
    lemma_fixed_product_monotone(
        change,
        saturate(v + v2, u128::MAX as nat),
        start,
        start,
    );
}

/// Of two blocks the fuller one leaves at least the multiplier of the other, where it is at or
/// above the target.
pub proof fn law_fuller_blocks_leave_a_higher_multiplier(
    rule: TargetedFeeAdjustment,
    previous: Multiplier,
    weights: BlockWeights,
    consumed: ConsumedWeight,
    fuller: ConsumedWeight,
)
    requires
        consumed.normal <= fuller.normal,
        rule.at_or_above_target(weights, fuller),
    ensures
        rule.next(previous, weights, consumed).inner <= rule.next(previous, weights, fuller).inner,
{
    if rule.at_or_above_target(weights, consumed) {
        let v = rule.variability.inner as nat;
        let v2 = fixed_product(v, v) / 2;
        let target = rule.target_weight(weights);
        let capacity = weights.normal_capacity() as nat;
        let low = rule.diff(weights, consumed);
        let high = rule.diff(weights, fuller);
        lemma_multiply_by_rational_monotone(
            (TargetedFeeAdjustment::block_weight(weights, consumed) - target) as nat,
            (TargetedFeeAdjustment::block_weight(weights, fuller) - target) as nat,
            ACCURACY as nat,
            if capacity == 0 {
                1
            } else {
                capacity
            },
        );
        assert(low <= high);
        lemma_fixed_product_monotone(v, v, low, high);
        lemma_fixed_product_monotone(low, high, low, high);
        lemma_fixed_product_monotone(v2, v2, fixed_product(low, low), fixed_product(high, high));
        lemma_fixed_product_monotone(
            saturate(
                rule.first_term(weights, consumed) + rule.second_term(weights, consumed),
                u128::MAX as nat,
            ),
            saturate(
                rule.first_term(weights, fuller) + rule.second_term(weights, fuller),
                u128::MAX as nat,
            ),
            rule.start(previous),
            rule.start(previous),
        );
    }
}

/// Where a block raises the multiplier from the minimum, every fuller block does.
pub proof fn law_minimum_is_left_behind(
    rule: TargetedFeeAdjustment,
    weights: BlockWeights,
    consumed: ConsumedWeight,
    fuller: ConsumedWeight,
)
    requires
        rule.next(rule.min, weights, consumed).inner > rule.min.inner,
        consumed.normal <= fuller.normal,
    ensures
        rule.next(rule.min, weights, fuller).inner > rule.min.inner,
{
    law_fuller_blocks_leave_a_higher_multiplier(rule, rule.min, weights, consumed, fuller);
}

impl TargetedFeeAdjustment {
    /// The multiplier that follows `previous` after a number of blocks of the same weight.
    pub open spec fn after_blocks(
        self,
        previous: Multiplier,
        weights: BlockWeights,
        consumed: ConsumedWeight,
        blocks: nat,
    ) -> Multiplier
        decreases blocks,
    {
        if blocks == 0 {
            previous
        } else {
            self.next(
                self.after_blocks(previous, weights, consumed, (blocks - 1) as nat),
                weights,
                consumed,
            )
        }
    }
}

/// In a congested chain the multiplier rises by at least `k * v * diff` of itself over `k` blocks,
/// up to the largest multiplier.
pub proof fn law_congestion_raises_the_multiplier(
    rule: TargetedFeeAdjustment,
    previous: Multiplier,
    weights: BlockWeights,
    consumed: ConsumedWeight,
    blocks: nat,
)
    requires
        rule.at_or_above_target(weights, consumed),
    ensures
        rule.start(rule.after_blocks(previous, weights, consumed, blocks)) >= saturate(
            rule.start(previous) + blocks * fixed_product(
                rule.first_term(weights, consumed),
                rule.start(previous),
            ),
            u128::MAX as nat,
        ),
    decreases blocks,
{
    let first = rule.first_term(weights, consumed);
    let second = rule.second_term(weights, consumed);
    let start = rule.start(previous);
    let rise = fixed_product(first, start);
    if blocks == 0 {
        assert(blocks * rise == 0) by (nonlinear_arith)
            requires
                blocks == 0,
        ;
    } else {
        let less = (blocks - 1) as nat;
        law_congestion_raises_the_multiplier(rule, previous, weights, consumed, less);
        let middle = rule.after_blocks(previous, weights, consumed, less);
        assert(blocks * rise == less * rise + rise) by (nonlinear_arith)
            requires
                blocks == less + 1,
        ;
        assert(0 <= less * rise) by (nonlinear_arith);
        lemma_fixed_product_monotone(
            first,
            saturate(first + second, u128::MAX as nat),
            start,
            rule.start(middle),
        );
    }
}

/// In a chain below the target the multiplier falls by at most `k * v * diff` of itself over `k`
/// blocks, and does not rise.
pub proof fn law_quiet_chain_lowers_the_multiplier(
    rule: TargetedFeeAdjustment,
    previous: Multiplier,
    weights: BlockWeights,
    consumed: ConsumedWeight,
    blocks: nat,
)
    requires
        !rule.at_or_above_target(weights, consumed),
    ensures
        rule.start(rule.after_blocks(previous, weights, consumed, blocks)) + blocks
            * fixed_product(rule.first_term(weights, consumed), rule.start(previous))
            >= rule.start(previous),
        rule.start(rule.after_blocks(previous, weights, consumed, blocks)) <= rule.start(previous),
    decreases blocks,
{
    let first = rule.first_term(weights, consumed);
    let second = rule.second_term(weights, consumed);
    let start = rule.start(previous);
    let fall = fixed_product(first, start);
    if blocks == 0 {
        assert(blocks * fall == 0) by (nonlinear_arith)
            requires
                blocks == 0,
        ;
    } else {
        let less = (blocks - 1) as nat;
        law_quiet_chain_lowers_the_multiplier(rule, previous, weights, consumed, less);
        let middle = rule.after_blocks(previous, weights, consumed, less);
        assert(blocks * fall == less * fall + fall) by (nonlinear_arith)
            requires
                blocks == less + 1,
        ;
        let change: nat = if first >= second {
            (first - second) as nat
        } else {
            0
        };
        lemma_fixed_product_monotone(change, first, rule.start(middle), start);
    }
}

/// The weight that the normal transactions of a block may have: the limit of their class, or that
/// of the block where their class has none.
spec fn capacity_of(weights: BlockWeights) -> nat {
    if weights.per_class.normal.max_total is Some {
        weights.per_class.normal.max_total->0 as nat
    } else {
        weights.max_block as nat
    }
}

/// The next multiplier is `previous * (1 + t1 + t2)`, each operation rounded to the accuracy and
/// cut to 128 bits: where `capacity` is the weight that normal transactions may have, `block` the
/// weight that they had, `target` the integer nearest to the target portion of the capacity, `diff`
/// the distance of the two as a fraction of the capacity, `v_squared` and `diff_squared` the
/// squares, `t1` the product `v * diff`, `t2` the product `v_squared / 2 * diff_squared`, and `step`
/// the change of the previous multiplier, which counts as the minimum where it is below.
pub proof fn law_next_multiplier_follows_from_the_weights(
    rule: TargetedFeeAdjustment,
    previous: Multiplier,
    weights: BlockWeights,
    consumed: ConsumedWeight,
    capacity: nat,
    block: nat,
    target: nat,
    diff: nat,
    v_squared: nat,
    diff_squared: nat,
    t1: nat,
    t2: nat,
    change: nat,
    start: nat,
    step: nat,
)
    requires
        weights.per_class.normal.max_total is Some ==> capacity
            == weights.per_class.normal.max_total->0,
        weights.per_class.normal.max_total is None ==> capacity == weights.max_block,
        block <= capacity && block <= consumed.normal,
        block == capacity || block == consumed.normal,
        2 * (rule.target.spec_parts() * capacity) <= 2 * (target * 1_000_000_000_000_000_000)
            + 1_000_000_000_000_000_000,
        2 * (target * 1_000_000_000_000_000_000) < 2 * (rule.target.spec_parts() * capacity)
            + 1_000_000_000_000_000_000,
        rule.target.spec_parts() <= 1_000_000_000_000_000_000,
        capacity > 0 && block >= target ==> diff * capacity <= (block - target)
            * 1_000_000_000_000_000_000 < diff * capacity + capacity,
        capacity > 0 && block < target ==> diff * capacity <= (target - block)
            * 1_000_000_000_000_000_000 < diff * capacity + capacity,
        capacity == 0 ==> diff == 0,
        rounds_to(rule.variability.inner as nat * diff, 1_000_000_000_000_000_000, t1),
        rounds_to(
            rule.variability.inner as nat * rule.variability.inner as nat,
            1_000_000_000_000_000_000,
            v_squared,
        ),
        rounds_to(diff * diff, 1_000_000_000_000_000_000, diff_squared),
        rounds_to(
            (if v_squared <= u128::MAX {
                v_squared
            } else {
                u128::MAX as nat
            }) / 2 * diff_squared,
            1_000_000_000_000_000_000,
            t2,
        ),
        block >= target && t1 + t2 <= u128::MAX ==> change == t1 + t2,
        block >= target && t1 + t2 > u128::MAX ==> change == u128::MAX,
        block < target && t1 >= t2 ==> change + t2 == t1,
        block < target && t1 < t2 ==> change == 0,
        start >= previous.inner && start >= rule.min.inner,
        start == previous.inner || start == rule.min.inner,
        rounds_to(change * start, 1_000_000_000_000_000_000, step),
    ensures
        ({
            let next = rule.next(previous, weights, consumed).inner;
            &&& next >= rule.min.inner
            &&& block >= target && start + step <= u128::MAX ==> next == start + step
            &&& block >= target && start + step > u128::MAX ==> next == u128::MAX
            &&& block < target && start >= step + rule.min.inner ==> next == start - step
            &&& block < target && start < step + rule.min.inner ==> next == rule.min.inner
        }),
{
    let a = ACCURACY as nat;
    let v = rule.variability.inner as nat;
    lemma_portion(rule.target.spec_parts(), capacity, target);
    lemma_portion_bounded(rule.target.spec_parts(), capacity);
    assert(rule.target_weight(weights) == target);
    let distance: nat = if block >= target {
        (block - target) as nat
    } else {
        (target - block) as nat
    };
    let divisor: nat = if capacity == 0 {
        1
    } else {
        capacity
    };
    assert(distance * a <= u128::MAX);
    assert(rounds_to(distance * a, divisor, diff));
    law_fixed_ratio_is_rounded(distance, divisor, diff);
    assert(diff <= a) by (nonlinear_arith)
        requires
            diff * divisor <= distance * a,
            distance <= divisor,
            divisor > 0,
    ;
    assert(rule.diff(weights, consumed) == diff);
    law_fixed_product_is_rounded(v, diff, t1);
    law_fixed_product_is_rounded(v, v, v_squared);
    law_fixed_product_is_rounded(diff, diff, diff_squared);
    assert(diff * diff <= a * a) by (nonlinear_arith)
        requires
            diff <= a,
    ;
    let half = fixed_product(v, v) / 2;
    assert(v * diff <= v * a && half * diff_squared <= half * a) by (nonlinear_arith)
        requires
            diff <= a,
            diff_squared <= a,
    ;
    assert(t1 <= v && t2 <= half);
    law_fixed_product_is_rounded(half, diff_squared, t2);
    law_fixed_product_is_rounded(change, start, step);
    assert(rule.first_term(weights, consumed) == t1);
    assert(rule.second_term(weights, consumed) == t2);
}

/// The first term is at most `v` times the distance from the target as a fraction of the capacity,
/// save for rounding.
proof fn lemma_first_term_is_in_proportion(
    rule: TargetedFeeAdjustment,
    weights: BlockWeights,
    consumed: ConsumedWeight,
    capacity: nat,
    distance: nat,
)
    requires
        capacity == capacity_of(weights),
        capacity > 0,
        distance <= capacity,
        TargetedFeeAdjustment::block_weight(weights, consumed) >= rule.target_weight(weights)
            ==> distance == TargetedFeeAdjustment::block_weight(weights, consumed)
            - rule.target_weight(weights),
        TargetedFeeAdjustment::block_weight(weights, consumed) < rule.target_weight(weights)
            ==> distance == rule.target_weight(weights) - TargetedFeeAdjustment::block_weight(
            weights,
            consumed,
        ),
    ensures
        ({
            let v = rule.variability.inner as nat;
            let first = rule.first_term(weights, consumed);
            &&& 2 * (first * capacity) <= 2 * (v * distance) + capacity
            &&& first * capacity * ACCURACY + (v + ACCURACY) * capacity >= v * distance * ACCURACY
        }),
{
    let a = ACCURACY as nat;
    let v = rule.variability.inner as nat;
    let diff = rule.diff(weights, consumed);
    let first = rule.first_term(weights, consumed);
    assert(distance * a <= u128::MAX);
    law_quotient_is_rounded(distance, a, capacity);
    assert(diff <= a) by (nonlinear_arith)
        requires
            multiply_by_rational(distance, a, capacity) * capacity <= distance * a,
            distance <= capacity,
            capacity > 0,
            diff == saturate(multiply_by_rational(distance, a, capacity), u128::MAX as nat),
    ;
    assert(multiply_by_rational(distance, a, capacity) <= a) by (nonlinear_arith)
        requires
            multiply_by_rational(distance, a, capacity) * capacity <= distance * a,
            distance <= capacity,
            capacity > 0,
    ;
    assert(diff * capacity <= distance * a < diff * capacity + capacity);
    law_quotient_is_rounded(v, diff, a);
    lemma_fixed_product_monotone(v, v, diff, a);
    lemma_product_with_one(v);
    let q = multiply_by_rational(v, diff, a);
    assert(v * diff <= v * a) by (nonlinear_arith)
        requires
            diff <= a,
    ;
    assert(q <= v);
    assert(first == q);
    assert(v * diff * capacity <= v * (distance * a)) by (nonlinear_arith)
        requires
            diff * capacity <= distance * a,
    ;
    assert(v * (distance * a) <= v * diff * capacity + v * capacity) by (nonlinear_arith)
        requires
            distance * a < diff * capacity + capacity,
    ;
    assert(v * (distance * a) == v * distance * a) by (nonlinear_arith);
    assert(2 * (q * a) * capacity <= 2 * (v * diff) * capacity + a * capacity) by (nonlinear_arith)
        requires
            2 * (q * a) <= 2 * (v * diff) + a,
    ;
    assert(v * diff * capacity <= q * a * capacity + a * capacity) by (nonlinear_arith)
        requires
            v * diff <= q * a + a,
    ;
    assert(2 * (q * a) * capacity == a * (2 * (q * capacity)) && 2 * (v * diff) * capacity == 2 * (
    v * diff * capacity) && q * a * capacity == q * capacity * a) by (nonlinear_arith);
    assert(2 * (v * distance * a) + a * capacity == a * (2 * (v * distance) + capacity))
        by (nonlinear_arith);
    assert(2 * (q * capacity) <= 2 * (v * distance) + capacity) by (nonlinear_arith)
        requires
            a * (2 * (q * capacity)) <= a * (2 * (v * distance) + capacity),
            a > 0,
    ;
    assert((v + a) * capacity == v * capacity + a * capacity) by (nonlinear_arith);
}

/// After a block below the target the multiplier falls by at most `v * (target - block) / capacity`
/// of itself, save for rounding. The fall vanishes as the block comes near the target.
pub proof fn law_fall_is_in_proportion_to_the_distance(
    rule: TargetedFeeAdjustment,
    previous: Multiplier,
    weights: BlockWeights,
    consumed: ConsumedWeight,
    capacity: nat,
    target: nat,
)
    requires
        previous.inner >= rule.min.inner,
        rule.target.spec_parts() <= 1_000_000_000_000_000_000,
        weights.per_class.normal.max_total is Some ==> capacity
            == weights.per_class.normal.max_total->0,
        weights.per_class.normal.max_total is None ==> capacity == weights.max_block,
        2 * (rule.target.spec_parts() * capacity) <= 2 * (target * 1_000_000_000_000_000_000)
            + 1_000_000_000_000_000_000,
        2 * (target * 1_000_000_000_000_000_000) < 2 * (rule.target.spec_parts() * capacity)
            + 1_000_000_000_000_000_000,
        consumed.normal < target,
    ensures
        ({
            let next = rule.next(previous, weights, consumed).inner;
            let v = rule.variability.inner;
            &&& next <= previous.inner
            &&& 2 * (capacity * (previous.inner - next)) * 1_000_000_000_000_000_000
                <= previous.inner * (2 * (v * (target - consumed.normal)) + capacity) + capacity
                * 1_000_000_000_000_000_000
        }),
{
    let a = ACCURACY as nat;
    let v = rule.variability.inner as nat;
    let s = previous.inner as nat;
    lemma_portion(rule.target.spec_parts(), capacity, target);
    lemma_portion_bounded(rule.target.spec_parts(), capacity);
    let distance = (target - consumed.normal) as nat;
    lemma_first_term_is_in_proportion(rule, weights, consumed, capacity, distance);
    let first = rule.first_term(weights, consumed);
    let second = rule.second_term(weights, consumed);
    let change: nat = if first >= second {
        (first - second) as nat
    } else {
        0
    };
    let step = fixed_product(change, s);
    law_quotient_is_rounded(change, s, a);
    let fall = (s - rule.next(previous, weights, consumed).inner) as nat;
    assert(fall <= step);
    assert(2 * (step * a) <= 2 * (change * s) + a);
    assert(2 * (capacity * fall) * a <= capacity * (2 * (step * a))) by (nonlinear_arith)
        requires
            fall <= step,
    ;
    assert(capacity * (2 * (step * a)) <= capacity * (2 * (change * s) + a)) by (nonlinear_arith)
        requires
            2 * (step * a) <= 2 * (change * s) + a,
    ;
    assert(capacity * (2 * (change * s) + a) <= s * (2 * (first * capacity)) + capacity * a)
        by (nonlinear_arith)
        requires
            change <= first,
    ;
    assert(s * (2 * (first * capacity)) <= s * (2 * (v * distance) + capacity)) by (nonlinear_arith)
        requires
            2 * (first * capacity) <= 2 * (v * distance) + capacity,
    ;
}

/// After a block at or above the target the multiplier rises by at least
/// `v * (block - target) / capacity` of itself, save for rounding, up to the largest multiplier.
pub proof fn law_rise_is_in_proportion_to_the_distance(
    rule: TargetedFeeAdjustment,
    previous: Multiplier,
    weights: BlockWeights,
    consumed: ConsumedWeight,
    capacity: nat,
    target: nat,
)
    requires
        previous.inner >= rule.min.inner,
        rule.target.spec_parts() <= 1_000_000_000_000_000_000,
        weights.per_class.normal.max_total is Some ==> capacity
            == weights.per_class.normal.max_total->0,
        weights.per_class.normal.max_total is None ==> capacity == weights.max_block,
        2 * (rule.target.spec_parts() * capacity) <= 2 * (target * 1_000_000_000_000_000_000)
            + 1_000_000_000_000_000_000,
        2 * (target * 1_000_000_000_000_000_000) < 2 * (rule.target.spec_parts() * capacity)
            + 1_000_000_000_000_000_000,
        target <= consumed.normal <= capacity,
    ensures
        ({
            let a: nat = 1_000_000_000_000_000_000;
            let next = rule.next(previous, weights, consumed).inner;
            let v = rule.variability.inner;
            &&& next >= previous.inner
            &&& next < u128::MAX ==> (next - previous.inner) * a * (capacity * a) + previous.inner
                * ((v + a) * capacity) + a * (capacity * a) >= previous.inner * (v * (
            consumed.normal - target) * a)
        }),
{
    let a = ACCURACY as nat;
    let v = rule.variability.inner as nat;
    let s = previous.inner as nat;
    let next = rule.next(previous, weights, consumed).inner as nat;
    lemma_portion(rule.target.spec_parts(), capacity, target);
    let distance = (consumed.normal - target) as nat;
    if next < u128::MAX {
        let first = rule.first_term(weights, consumed);
        let second = rule.second_term(weights, consumed);
        let rise = (next - s) as nat;
        if capacity == 0 {
            assert(distance == 0);
            assert(s * (v * distance * a) == 0) by (nonlinear_arith)
                requires
                    distance == 0,
            ;
            assert(rise * a * (capacity * a) >= 0 && s * ((v + a) * capacity) >= 0 && a * (capacity
                * a) >= 0) by (nonlinear_arith);
        } else {
            lemma_first_term_is_in_proportion(rule, weights, consumed, capacity, distance);
            lemma_fixed_product_monotone(
                first,
                saturate(first + second, u128::MAX as nat),
                s,
                s,
            );
            assert(rise >= fixed_product(first, s));
            law_quotient_is_rounded(first, s, a);
            assert(rise * a + a >= first * s);
            assert((rise * a + a) * (capacity * a) >= first * s * (capacity * a))
                by (nonlinear_arith)
                requires
                    rise * a + a >= first * s,
            ;
            assert((rise * a + a) * (capacity * a) == rise * a * (capacity * a) + a * (capacity
                * a)) by (nonlinear_arith);
            assert(first * s * (capacity * a) + s * ((v + a) * capacity) == s * (first * capacity
                * a + (v + a) * capacity)) by (nonlinear_arith);
            assert(s * (first * capacity * a + (v + a) * capacity) >= s * (v * distance * a))
                by (nonlinear_arith)
                requires
                    first * capacity * a + (v + a) * capacity >= v * distance * a,
            ;
        }
    }
}

/// The rule without settings has a minimum, a target and a variability of zero, and leaves a
/// multiplier of zero after every block.
pub proof fn law_unit_rule_is_zero(
    previous: Multiplier,
    weights: BlockWeights,
    consumed: ConsumedWeight,
)
    ensures
        ().spec_min().inner == 0,
        ().spec_target().spec_parts() == 0,
        ().spec_variability().inner == 0,
        ().next(previous, weights, consumed).inner == 0,
{
    law_portion_has_its_parts(0);
}

/// A rule shows the settings that it was made with.
pub proof fn law_rule_shows_its_settings(rule: TargetedFeeAdjustment)
    ensures
        rule.spec_min() == rule.min,
        rule.spec_target() == rule.target,
        rule.spec_variability() == rule.variability,
{
}

/// Of a block nothing counts but how far it is from the target as a fraction of the capacity, above
/// or below: two blocks for which these fractions are equal leave the same multiplier, whatever
/// their weights, capacities and targets are.
pub proof fn law_only_the_relative_distance_counts(
    first: TargetedFeeAdjustment,
    second: TargetedFeeAdjustment,
    previous: Multiplier,
    first_weights: BlockWeights,
    second_weights: BlockWeights,
    first_block: ConsumedWeight,
    second_block: ConsumedWeight,
    first_capacity: Weight,
    second_capacity: Weight,
    first_target: nat,
    second_target: nat,
)
    requires
        first.variability == second.variability,
        first.min == second.min,
        first.target.spec_parts() <= 1_000_000_000_000_000_000,
        second.target.spec_parts() <= 1_000_000_000_000_000_000,
        first_weights.per_class.normal.max_total == Some(first_capacity),
        second_weights.per_class.normal.max_total == Some(second_capacity),
        first_capacity > 0,
        second_capacity > 0,
        2 * (first.target.spec_parts() * first_capacity) <= 2 * (first_target
            * 1_000_000_000_000_000_000) + 1_000_000_000_000_000_000,
        2 * (first_target * 1_000_000_000_000_000_000) < 2 * (first.target.spec_parts()
            * first_capacity) + 1_000_000_000_000_000_000,
        2 * (second.target.spec_parts() * second_capacity) <= 2 * (second_target
            * 1_000_000_000_000_000_000) + 1_000_000_000_000_000_000,
        2 * (second_target * 1_000_000_000_000_000_000) < 2 * (second.target.spec_parts()
            * second_capacity) + 1_000_000_000_000_000_000,
        first_block.normal <= first_capacity,
        second_block.normal <= second_capacity,
        (first_block.normal - first_target) * second_capacity == (second_block.normal
            - second_target) * first_capacity,
    ensures
        first.next(previous, first_weights, first_block) == second.next(
            previous,
            second_weights,
            second_block,
        ),
{
    let a = ACCURACY as nat;
    let m1 = first_capacity as nat;
    let m2 = second_capacity as nat;
    let e1 = first_block.normal - first_target;
    let e2 = second_block.normal - second_target;
    lemma_portion(first.target.spec_parts(), m1, first_target);
    lemma_portion(second.target.spec_parts(), m2, second_target);
    lemma_portion_bounded(first.target.spec_parts(), m1);
    lemma_portion_bounded(second.target.spec_parts(), m2);
    assert(e1 >= 0 <==> e2 >= 0) by (nonlinear_arith)
        requires
            e1 * m2 == e2 * m1,
            m1 > 0,
            m2 > 0,
    ;
    let d1: nat = if e1 >= 0 {
        e1 as nat
    } else {
        (-e1) as nat
    };
    let d2: nat = if e2 >= 0 {
        e2 as nat
    } else {
        (-e2) as nat
    };
    assert(d1 * m2 == d2 * m1) by (nonlinear_arith)
        requires
            e1 * m2 == e2 * m1,
            d1 == e1 && d2 == e2 || d1 == -e1 && d2 == -e2,
    ;
    let q = multiply_by_rational(d1, a, m1);
    law_quotient_is_rounded(d1, a, m1);
    assert(d1 * a <= u128::MAX && d2 * a <= u128::MAX);
    assert(q * m2 <= d2 * a < q * m2 + m2) by (nonlinear_arith)
        requires
            q * m1 <= d1 * a < q * m1 + m1,
            d1 * m2 == d2 * m1,
            m1 > 0,
            m2 > 0,
    {
        assert((q * m1) * m2 <= (d1 * a) * m2 && (d1 * a) * m2 < (q * m1 + m1) * m2);
        assert((d1 * a) * m2 == (d2 * a) * m1);
        assert((q * m1) * m2 == (q * m2) * m1);
        assert((q * m1 + m1) * m2 == (q * m2 + m2) * m1);
    }
    lemma_rounded_quotient(d2, a, m2, q);
    assert(first.diff(first_weights, first_block) == second.diff(second_weights, second_block));
}

} // verus!
