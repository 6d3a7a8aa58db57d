//! What holds of fees and priorities as a whole.

use vstd::prelude::*;

use super::adjustment::MultiplierUpdate;
use super::charge::{block_share, low_bits, ChargeTransactionPayment};
use super::module::{BalanceOf, Config, IntegrityError, Module};
use super::payment::CurrencyAdapter;
use super::types::FeeDetails;
use crate::balance::Balance;
use crate::fixed::{
    fixed_scaled, law_portion_is_the_nearest_integer, lemma_multiply_by_rational_monotone,
    lemma_portion, lemma_rounded_quotient, rounds_to, saturate, ACCURACY,
};
use crate::weights::{
    ConsumedWeight, DispatchClass, DispatchInfo, Pays, PerDispatchClass, PostDispatchInfo, Weight,
};

verus! {

/// Whether a larger weight never has a smaller fee.
pub open spec fn weight_fees_are_monotone<T: Config>(config: T) -> bool {
    forall|lower: Weight, upper: Weight|
        lower <= upper ==> (#[trigger] config.spec_weight_to_fee(lower)).amount() <= (
        #[trigger] config.spec_weight_to_fee(upper)).amount()
}

/// The final fee is the fee without a tip plus the tip, up to the limit of the balance type.
pub proof fn law_final_fee_is_inclusion_fee_plus_tip<T: Config>(
    module: Module<T>,
    len: u32,
    info: DispatchInfo,
    tip: BalanceOf<T>,
    no_tip: BalanceOf<T>,
)
    requires
        no_tip.amount() == 0,
    ensures
        module.spec_fee(len, info, tip) == saturate(
            module.spec_fee(len, info, no_tip) + tip.amount(),
            BalanceOf::<T>::limit(),
        ),
{
}

/// A transaction that pays no fee pays its tip alone.
pub proof fn law_free_transaction_pays_its_tip_alone<T: Config>(
    module: Module<T>,
    len: u32,
    info: DispatchInfo,
    tip: BalanceOf<T>,
)
    requires
        info.pays_fee == Pays::No,
    ensures
        module.spec_fee(len, info, tip) == tip.amount(),
{
    tip.lemma_amount_bounded();
}

/// A transaction whose fee is waived once it was executed pays its tip alone.
pub proof fn law_waived_fee_leaves_the_tip<T: Config>(
    module: Module<T>,
    len: u32,
    info: DispatchInfo,
    post_info: PostDispatchInfo,
    tip: BalanceOf<T>,
)
    requires
        post_info.pays_fee == Pays::No,
    ensures
        module.spec_actual_fee(len, info, post_info, tip) == tip.amount(),
{
    tip.lemma_amount_bounded();
}

/// Weight above the maximum of a block costs nothing more.
pub proof fn law_fee_is_bounded_by_the_block<T: Config>(
    module: Module<T>,
    len: u32,
    weight: Weight,
    tip: BalanceOf<T>,
    pays_fee: Pays,
    class: DispatchClass,
)
    requires
        weight >= module.config.spec_block_weights().max_block,
    ensures
        module.fee_model(len, weight, tip, pays_fee, class) == module.fee_model(
            len,
            module.config.spec_block_weights().max_block,
            tip,
            pays_fee,
            class,
        ),
{
}

/// Scaling grows with the integer that is scaled.
proof fn lemma_scaled_monotone(multiplier: nat, lower: nat, upper: nat)
    requires
        lower <= upper,
    ensures
        fixed_scaled(multiplier, lower) <= fixed_scaled(multiplier, upper),
{
    lemma_multiply_by_rational_monotone(lower, upper, multiplier, ACCURACY as nat);
    assert(multiplier * lower == lower * multiplier && multiplier * upper == upper * multiplier)
        by (nonlinear_arith);
}

/// The fee for a weight grows with the weight where the configured fees do.
pub proof fn law_adjusted_weight_fee_is_monotone<T: Config>(
    module: Module<T>,
    lower: Weight,
    upper: Weight,
)
    requires
        weight_fees_are_monotone(module.config),
        lower <= upper,
    ensures
        module.adjusted_weight_fee(lower) <= module.adjusted_weight_fee(upper),
{
    let max_block = module.config.spec_block_weights().max_block;
    let capped_lower = if lower <= max_block {
        lower
    } else {
        max_block
    };
    let capped_upper = if upper <= max_block {
        upper
    } else {
        max_block
    };
    assert(module.config.spec_weight_to_fee(capped_lower).amount()
        <= module.config.spec_weight_to_fee(capped_upper).amount());
    lemma_scaled_monotone(
        module.next_fee_multiplier.inner as nat,
        module.spec_weight_to_fee(lower).amount(),
        module.spec_weight_to_fee(upper).amount(),
    );
}

/// A longer transaction does not pay a smaller fee.
pub proof fn law_fee_grows_with_the_length<T: Config>(
    module: Module<T>,
    shorter: u32,
    longer: u32,
    info: DispatchInfo,
    tip: BalanceOf<T>,
)
    requires
        shorter <= longer,
    ensures
        module.spec_fee(shorter, info, tip) <= module.spec_fee(longer, info, tip),
{
    let per_byte = module.config.spec_transaction_byte_fee().amount();
    assert(per_byte * shorter as nat <= per_byte * longer as nat) by (nonlinear_arith)
        requires
            shorter <= longer,
    ;
}

/// Where fees grow with the weight, the fee once a transaction was executed is at most the fee
/// that was withdrawn before.
pub proof fn law_actual_fee_is_at_most_the_fee<T: Config>(
    module: Module<T>,
    len: u32,
    info: DispatchInfo,
    post_info: PostDispatchInfo,
    tip: BalanceOf<T>,
)
    requires
        weight_fees_are_monotone(module.config),
    ensures
        module.spec_actual_fee(len, info, post_info, tip) <= module.spec_fee(len, info, tip),
{
    law_adjusted_weight_fee_is_monotone(module, post_info.charged_weight(info), info.weight);
}

/// A transaction that used at least the weight that it announced gets nothing back.
pub proof fn law_no_refund_without_lower_weight<T: Config>(
    module: Module<T>,
    len: u32,
    info: DispatchInfo,
    post_info: PostDispatchInfo,
    tip: BalanceOf<T>,
)
    requires
        post_info.actual_weight matches Some(actual) ==> actual >= info.weight,
        post_info.pays_fee == Pays::Yes,
    ensures
        module.spec_actual_fee(len, info, post_info, tip) == module.spec_fee(len, info, tip),
        CurrencyAdapter::refund_owed(
            module.spec_fee(len, info, tip),
            module.spec_actual_fee(len, info, post_info, tip),
        ) == 0,
{
}

/// What remains of the withdrawn fee after the refund is the actual fee, where fees grow with the
/// weight.
pub proof fn law_refund_leaves_the_actual_fee<T: Config>(
    module: Module<T>,
    len: u32,
    info: DispatchInfo,
    post_info: PostDispatchInfo,
    tip: BalanceOf<T>,
)
    requires
        weight_fees_are_monotone(module.config),
    ensures
        ({
            let paid = module.spec_fee(len, info, tip);
            let actual = module.spec_actual_fee(len, info, post_info, tip);
            paid - CurrencyAdapter::refund_owed(paid, actual) == actual
        }),
{
    law_actual_fee_is_at_most_the_fee(module, len, info, post_info, tip);
}

/// The multiplier adjusts the weight fee and nothing else.
pub proof fn law_multiplier_adjusts_the_weight_fee_alone<T: Config>(
    first: Module<T>,
    second: Module<T>,
    len: u32,
    weight: Weight,
    tip: BalanceOf<T>,
    class: DispatchClass,
)
    requires
        first.config == second.config,
    ensures
        ({
            let a = first.fee_model(len, weight, tip, Pays::Yes, class);
            let b = second.fee_model(len, weight, tip, Pays::Yes, class);
            &&& a.inclusion_fee->0.base_fee == b.inclusion_fee->0.base_fee
            &&& a.inclusion_fee->0.len_fee == b.inclusion_fee->0.len_fee
            &&& a.tip == b.tip
        }),
{
}

/// A higher multiplier does not lower the fee for a weight.
pub proof fn law_higher_multiplier_does_not_lower_the_weight_fee<T: Config>(
    first: Module<T>,
    second: Module<T>,
    weight: Weight,
)
    requires
        first.config == second.config,
        first.next_fee_multiplier.inner <= second.next_fee_multiplier.inner,
    ensures
        first.adjusted_weight_fee(weight) <= second.adjusted_weight_fee(weight),
{
    lemma_multiply_by_rational_monotone(
        first.next_fee_multiplier.inner as nat,
        second.next_fee_multiplier.inner as nat,
        first.spec_weight_to_fee(weight).amount(),
        ACCURACY as nat,
    );
}

/// The tip changes nothing in the inclusion fee.
pub proof fn law_tip_leaves_the_inclusion_fee<T: Config>(
    module: Module<T>,
    len: u32,
    weight: Weight,
    tip: BalanceOf<T>,
    other_tip: BalanceOf<T>,
    pays_fee: Pays,
    class: DispatchClass,
)
    ensures
        module.fee_model(len, weight, tip, pays_fee, class).inclusion_fee == module.fee_model(
            len,
            weight,
            other_tip,
            pays_fee,
            class,
        ).inclusion_fee,
{
}

/// The fee for a weight before adjustment is the one that is configured, up to the maximum of a
/// block, and that of the maximum above it. The multiplier plays no part in it.
pub proof fn law_weight_fee_is_capped<T: Config>(module: Module<T>, other: Module<T>, weight: Weight)
    requires
        module.config == other.config,
    ensures
        ({
            let max_block = module.config.spec_block_weights().max_block;
            &&& weight <= max_block ==> module.spec_weight_to_fee(weight)
                == module.config.spec_weight_to_fee(weight)
            &&& weight >= max_block ==> module.spec_weight_to_fee(weight)
                == module.spec_weight_to_fee(max_block)
        }),
        module.spec_weight_to_fee(weight) == other.spec_weight_to_fee(weight),
{
}

/// At a multiplier of one the weight fee is the one that is configured.
pub proof fn law_multiplier_of_one_keeps_the_weight_fee<T: Config>(
    module: Module<T>,
    weight: Weight,
)
    requires
        module.next_fee_multiplier.inner == ACCURACY,
    ensures
        module.adjusted_weight_fee(weight) == module.spec_weight_to_fee(weight).amount(),
{
    let fee = module.spec_weight_to_fee(weight);
    fee.lemma_amount_bounded();
    vstd::arithmetic::div_mod::lemma_fundamental_div_mod_converse(
        (ACCURACY as nat * fee.amount()) as int,
        ACCURACY as int,
        fee.amount() as int,
        0,
    );
}

/// The fee that a weight converts to is its share in the fee of a transaction of that weight.
pub proof fn law_weight_converts_to_its_share_in_the_fee<T: Config>(
    module: Module<T>,
    len: u32,
    weight: Weight,
    tip: BalanceOf<T>,
    class: DispatchClass,
)
    ensures
        module.fee_model(len, weight, tip, Pays::Yes, class).inclusion_fee matches Some(fee)
            && fee.adjusted_weight_fee == module.adjusted_weight_fee(weight),
{
}

/// Every weight fits the multiplier without loss, so that differences of weights do.
pub proof fn law_every_weight_fits_the_multiplier(weight: Weight)
    ensures
        weight * ACCURACY <= u128::MAX,
{
}

/// A transaction that uses more of a block, by weight or by length, fits no more often.
proof fn lemma_block_share_antitone(
    max_weight: u64,
    max_len: u32,
    weight: u64,
    more_weight: u64,
    len: usize,
    more_len: usize,
)
    requires
        weight <= more_weight,
        len <= more_len,
    ensures
        block_share(max_weight, max_len, more_weight, more_len) <= block_share(
            max_weight,
            max_len,
            weight,
            len,
        ),
{
    let w1: int = if weight == 0 {
        1
    } else {
        weight as int
    };
    let w2: int = if more_weight == 0 {
        1
    } else {
        more_weight as int
    };
    let l1: int = if len == 0 {
        1
    } else {
        len as int
    };
    let l2: int = if more_len == 0 {
        1
    } else {
        more_len as int
    };
    vstd::arithmetic::div_mod::lemma_div_is_ordered_by_denominator(max_weight as int, w1, w2);
    vstd::arithmetic::div_mod::lemma_div_is_ordered_by_denominator(max_len as int, l1, l2);
}

/// Of two transactions, the one with the higher fee that uses no more of a block has at least
/// the priority of the other.
pub proof fn law_priority_favours_fees_over_resources<T: Config>(
    module: Module<T>,
    info: DispatchInfo,
    len: usize,
    fee: BalanceOf<T>,
    heavier: DispatchInfo,
    longer: usize,
    lower_fee: BalanceOf<T>,
)
    requires
        info.weight <= heavier.weight,
        len <= longer,
        lower_fee.amount() <= fee.amount(),
    ensures
        ChargeTransactionPayment::<T>::priority(module, longer, heavier, lower_fee)
            <= ChargeTransactionPayment::<T>::priority(module, len, info, fee),
{
    let max_weight = module.config.spec_block_weights().max_block;
    let max_len = module.config.spec_block_length().max.normal;
    lemma_block_share_antitone(max_weight, max_len, info.weight, heavier.weight, len, longer);
    let limit = BalanceOf::<T>::limit();
    let low = saturate(block_share(max_weight, max_len, heavier.weight, longer), limit);
    let high = saturate(block_share(max_weight, max_len, info.weight, len), limit);
    assert(lower_fee.amount() * low <= fee.amount() * high) by (nonlinear_arith)
        requires
            lower_fee.amount() <= fee.amount(),
            low <= high,
    ;
}

/// A higher tip does not lower the priority of a transaction.
pub proof fn law_tip_does_not_lower_the_priority<T: Config>(
    module: Module<T>,
    info: DispatchInfo,
    len: usize,
    lower: ChargeTransactionPayment<T>,
    higher: ChargeTransactionPayment<T>,
)
    requires
        lower.tip.amount() <= higher.tip.amount(),
    ensures
        ChargeTransactionPayment::<T>::priority(
            module,
            len,
            info,
            lower.fee(module, info, len),
        ) <= ChargeTransactionPayment::<T>::priority(
            module,
            len,
            info,
            higher.fee(module, info, len),
        ),
{
    let lower_fee = lower.fee(module, info, len);
    let higher_fee = higher.fee(module, info, len);
    BalanceOf::<T>::lemma_amount_of(module.spec_fee(low_bits(len), info, lower.tip));
    BalanceOf::<T>::lemma_amount_of(module.spec_fee(low_bits(len), info, higher.tip));
    law_priority_favours_fees_over_resources(
        module,
        info,
        len,
        higher_fee,
        info,
        len,
        lower_fee,
    );
}

/// Each byte costs the byte fee: the fee is that of a transaction without bytes plus the byte fee
/// for each byte, at every length, up to the limit of the balance type.
pub proof fn law_each_byte_costs_the_byte_fee<T: Config>(
    module: Module<T>,
    len: u32,
    info: DispatchInfo,
    tip: BalanceOf<T>,
)
    requires
        info.pays_fee == Pays::Yes,
    ensures
        ({
            let per_byte = module.config.spec_transaction_byte_fee().amount();
            let limit = BalanceOf::<T>::limit();
            let fee = module.spec_fee(len, info, tip);
            let exact = module.spec_fee(0, info, tip) + per_byte * len as nat;
            &&& exact <= limit ==> fee == exact
            &&& exact > limit ==> fee == limit
            &&& len < u32::MAX && module.spec_fee((len + 1) as u32, info, tip) < limit
                ==> module.spec_fee((len + 1) as u32, info, tip) == fee + per_byte
        }),
        module.fee_model(0, info.weight, tip, info.pays_fee, info.class).inclusion_fee->0.len_fee
            == 0,
{
    let per_byte = module.config.spec_transaction_byte_fee().amount();
    assert(per_byte * 0 == 0);
    assert(per_byte * (len + 1) as nat == per_byte * len as nat + per_byte) by (nonlinear_arith);
}

/// The length of a transaction that pays no fee costs nothing.
pub proof fn law_free_transactions_do_not_pay_for_bytes<T: Config>(
    module: Module<T>,
    shorter: u32,
    longer: u32,
    info: DispatchInfo,
    tip: BalanceOf<T>,
)
    requires
        info.pays_fee == Pays::No,
    ensures
        module.spec_fee(shorter, info, tip) == module.spec_fee(longer, info, tip),
        module.fee_model(shorter, info.weight, tip, info.pays_fee, info.class).inclusion_fee is None,
{
}

/// The fee of a paying transaction is the sum of the configured fee for the base weight of its
/// class, the byte fee for each byte, the configured fee for its weight times the multiplier,
/// rounded, and the tip, up to the limit of the balance type. Both weights count up to the maximum
/// of a block.
pub proof fn law_fee_is_the_sum_of_its_parts<T: Config>(
    module: Module<T>,
    len: u32,
    info: DispatchInfo,
    tip: BalanceOf<T>,
    base_weight: Weight,
    weight: Weight,
    weight_fee: nat,
)
    requires
        info.pays_fee == Pays::Yes,
        ({
            let weights = module.config.spec_block_weights();
            let base = if info.class == DispatchClass::Normal {
                weights.per_class.normal.base_extrinsic
            } else if info.class == DispatchClass::Operational {
                weights.per_class.operational.base_extrinsic
            } else {
                weights.per_class.mandatory.base_extrinsic
            };
            &&& base_weight <= base && base_weight <= weights.max_block
            &&& base_weight == base || base_weight == weights.max_block
            &&& weight <= info.weight && weight <= weights.max_block
            &&& weight == info.weight || weight == weights.max_block
        }),
        rounds_to(
            module.next_fee_multiplier.inner as nat * module.config.spec_weight_to_fee(
                weight,
            ).amount(),
            1_000_000_000_000_000_000,
            weight_fee,
        ),
    ensures
        ({
            let limit = BalanceOf::<T>::limit();
            let exact = module.config.spec_weight_to_fee(base_weight).amount()
                + module.config.spec_transaction_byte_fee().amount() * len as nat + weight_fee
                + tip.amount();
            &&& exact <= limit ==> module.spec_fee(len, info, tip) == exact
            &&& exact > limit ==> module.spec_fee(len, info, tip) == limit
        }),
        ({
            let limit = BalanceOf::<T>::limit();
            let model = module.fee_model(len, info.weight, tip, info.pays_fee, info.class);
            let per_byte = module.config.spec_transaction_byte_fee().amount();
            let adjusted = module.adjusted_weight_fee(info.weight);
            &&& model.tip == tip.amount()
            &&& model.inclusion_fee is Some
            &&& model.inclusion_fee->0.base_fee == module.config.spec_weight_to_fee(
                base_weight,
            ).amount()
            &&& per_byte * len as nat <= limit ==> model.inclusion_fee->0.len_fee == per_byte
                * len as nat
            &&& per_byte * len as nat > limit ==> model.inclusion_fee->0.len_fee == limit
            &&& model.inclusion_fee->0.adjusted_weight_fee == adjusted
            &&& weight_fee <= limit ==> adjusted == weight_fee
            &&& weight_fee > limit ==> adjusted == limit
        }),
{
    lemma_rounded_quotient(
        module.next_fee_multiplier.inner as nat,
        module.config.spec_weight_to_fee(weight).amount(),
        ACCURACY as nat,
        weight_fee,
    );
    module.config.spec_weight_to_fee(base_weight).lemma_amount_bounded();
    tip.lemma_amount_bounded();
}

/// The fee once a transaction was executed is the fee of a transaction that announced the weight
/// that it turned out to have, where that is at most what was announced.
pub proof fn law_actual_fee_is_that_of_the_actual_weight<T: Config>(
    module: Module<T>,
    len: u32,
    info: DispatchInfo,
    post_info: PostDispatchInfo,
    tip: BalanceOf<T>,
    actual: Weight,
)
    requires
        post_info.actual_weight == Some(actual),
        actual <= info.weight,
        post_info.pays_fee == Pays::Yes,
    ensures
        module.spec_actual_fee(len, info, post_info, tip) == module.spec_fee(
            len,
            DispatchInfo { weight: actual, class: info.class, pays_fee: info.pays_fee },
            tip,
        ),
{
}

/// A transaction that announced that it pays no fee pays its tip alone, whatever it used.
pub proof fn law_announced_free_transaction_stays_free<T: Config>(
    module: Module<T>,
    len: u32,
    info: DispatchInfo,
    post_info: PostDispatchInfo,
    tip: BalanceOf<T>,
)
    requires
        info.pays_fee == Pays::No,
    ensures
        module.spec_actual_fee(len, info, post_info, tip) == tip.amount(),
{
    tip.lemma_amount_bounded();
}

/// The weight to charge for is the lower of the actual and the announced one, and a fee is due
/// where neither record waives it.
pub proof fn law_charge_is_for_the_lower_weight(info: DispatchInfo, post_info: PostDispatchInfo)
    ensures
        post_info.actual_weight is None ==> post_info.charged_weight(info) == info.weight,
        post_info.actual_weight matches Some(actual) ==> {
            &&& post_info.charged_weight(info) <= actual
            &&& post_info.charged_weight(info) <= info.weight
            &&& post_info.charged_weight(info) == actual || post_info.charged_weight(info)
                == info.weight
        },
        post_info.fee_due(info) == Pays::Yes <==> info.pays_fee == Pays::Yes && post_info.pays_fee
            == Pays::Yes,
{
}

/// Each class has its own value.
pub proof fn law_classes_have_their_own_values<V>(values: PerDispatchClass<V>)
    ensures
        values.of(DispatchClass::Normal) == values.normal,
        values.of(DispatchClass::Operational) == values.operational,
        values.of(DispatchClass::Mandatory) == values.mandatory,
{
}

/// The refund and the corrected fee make up what was paid, and nothing is refunded where no more
/// was paid than is due.
pub proof fn law_refund_and_fee_make_up_what_was_paid(paid: nat, corrected_fee: nat)
    ensures
        paid >= corrected_fee ==> CurrencyAdapter::refund_owed(paid, corrected_fee) + corrected_fee
            == paid,
        paid <= corrected_fee ==> CurrencyAdapter::refund_owed(paid, corrected_fee) == 0,
{
}

/// What is refunded of a withdrawn fee is the adjusted fee for the weight that was announced and
/// not used, while the limit of the balance type is not reached and fees grow with the weight.
pub proof fn law_refund_is_for_the_unused_weight<T: Config>(
    module: Module<T>,
    len: u32,
    info: DispatchInfo,
    post_info: PostDispatchInfo,
    tip: BalanceOf<T>,
    actual: Weight,
)
    requires
        post_info.actual_weight == Some(actual),
        actual <= info.weight,
        info.pays_fee == Pays::Yes,
        post_info.pays_fee == Pays::Yes,
        weight_fees_are_monotone(module.config),
        module.spec_fee(len, info, tip) < BalanceOf::<T>::limit(),
    ensures
        CurrencyAdapter::refund_owed(
            module.spec_fee(len, info, tip),
            module.spec_actual_fee(len, info, post_info, tip),
        ) + module.adjusted_weight_fee(actual) == module.adjusted_weight_fee(info.weight),
{
    law_adjusted_weight_fee_is_monotone(module, actual, info.weight);
}

/// A length of less than 2 to the power of 32 is counted in full, and of a longer one the lower 32
/// bits.
pub proof fn law_length_is_counted_in_32_bits(len: usize, multiple: nat, rest: u32)
    requires
        len == multiple * 0x1_0000_0000 + rest,
    ensures
        low_bits(len) == rest,
{
    vstd::arithmetic::div_mod::lemma_fundamental_div_mod_converse(
        len as int,
        0x1_0000_0000,
        multiple as int,
        rest as int,
    );
}

/// The charge of a transaction withdraws the fee for its length, its weight and its tip.
pub proof fn law_charge_withdraws_the_fee<T: Config>(
    charge: ChargeTransactionPayment<T>,
    module: Module<T>,
    info: DispatchInfo,
    len: u32,
)
    requires
        len <= usize::MAX,
    ensures
        charge.fee(module, info, len as usize).amount() == module.spec_fee(len, info, charge.tip),
{
    law_length_is_counted_in_32_bits(len as usize, 0, len);
    BalanceOf::<T>::lemma_amount_of(module.spec_fee(len, info, charge.tip));
}

/// The priority is the fee times the number of times that the transaction fits into a block, both
/// by weight and by length: `times` is the largest number of transactions of that weight and length
/// that fit. Without weight or length a transaction counts as one unit of it. The product is cut
/// to the limit of the balance type and to 64 bits.
pub proof fn law_priority_is_the_fee_times_the_room<T: Config>(
    module: Module<T>,
    len: usize,
    info: DispatchInfo,
    fee: BalanceOf<T>,
    weight: nat,
    length: nat,
    times: nat,
)
    requires
        info.weight == 0 ==> weight == 1,
        info.weight > 0 ==> weight == info.weight,
        len == 0 ==> length == 1,
        len > 0 ==> length == len,
        times * weight <= module.config.spec_block_weights().max_block,
        times * length <= module.config.spec_block_length().max.normal,
        (times + 1) * weight > module.config.spec_block_weights().max_block || (times + 1) * length
            > module.config.spec_block_length().max.normal,
    ensures
        ({
            let limit = BalanceOf::<T>::limit();
            let priority = ChargeTransactionPayment::<T>::priority(module, len, info, fee);
            let exact = fee.amount() * times;
            &&& times <= limit && exact <= limit && exact <= u64::MAX ==> priority == exact
            &&& times <= limit && exact <= limit && exact > u64::MAX ==> priority == u64::MAX
            &&& times <= limit && exact > limit && limit <= u64::MAX ==> priority == limit
            &&& times <= limit && exact > limit && limit > u64::MAX ==> priority == u64::MAX
            &&& times > limit && fee.amount() == 0 ==> priority == 0
            &&& times > limit && fee.amount() > 0 && limit <= u64::MAX ==> priority == limit
            &&& times > limit && fee.amount() > 0 && limit > u64::MAX ==> priority == u64::MAX
        }),
{
    let max_weight = module.config.spec_block_weights().max_block as nat;
    let max_len = module.config.spec_block_length().max.normal as nat;
    let limit = BalanceOf::<T>::limit();
    let by_weight = max_weight / weight;
    let by_len = max_len / length;
    vstd::arithmetic::div_mod::lemma_fundamental_div_mod(max_weight as int, weight as int);
    vstd::arithmetic::div_mod::lemma_fundamental_div_mod(max_len as int, length as int);
    lemma_largest_multiple(max_weight, weight, times);
    lemma_largest_multiple(max_len, length, times);
    assert(block_share(max_weight as u64, max_len as u32, info.weight, len) == times);
    if times > limit {
        let cut = fee.amount() * limit;
        if fee.amount() == 0 {
            assert(cut == 0) by (nonlinear_arith)
                requires
                    cut == fee.amount() * limit,
                    fee.amount() == 0,
            ;
        } else {
            assert(cut >= limit) by (nonlinear_arith)
                requires
                    cut == fee.amount() * limit,
                    fee.amount() >= 1,
            ;
        }
    }
}

/// How a number of times that something fits compares to the quotient.
proof fn lemma_largest_multiple(total: nat, size: nat, times: nat)
    requires
        size > 0,
    ensures
        times * size <= total ==> times <= total / size,
        (times + 1) * size > total ==> total / size <= times,
{
    vstd::arithmetic::div_mod::lemma_fundamental_div_mod(total as int, size as int);
    let q = total / size;
    if times > q {
        assert(times * size >= size * q + size) by (nonlinear_arith)
            requires
                times >= q + 1,
        ;
    }
    if q > times {
        assert(size * q >= (times + 1) * size) by (nonlinear_arith)
            requires
                q >= times + 1,
        ;
    }
}

/// The integrity test fills a block to the integer nearest to the target portion of the weight
/// limit of the normal class.
pub proof fn law_integrity_is_tested_at_the_target<T: Config>(module: Module<T>, max_total: Weight)
    requires
        module.config.spec_block_weights().per_class.normal.max_total == Some(max_total),
    ensures
        ({
            let parts = module.config.spec_fee_multiplier_update().spec_target().spec_parts();
            let target = module.target_weight();
            &&& 2 * (parts * max_total) <= 2 * (target * 1_000_000_000_000_000_000)
                + 1_000_000_000_000_000_000
            &&& 2 * (target * 1_000_000_000_000_000_000) < 2 * (parts * max_total)
                + 1_000_000_000_000_000_000
        }),
{
    law_portion_is_the_nearest_integer(
        module.config.spec_fee_multiplier_update().spec_target().spec_parts(),
        max_total as nat,
    );
}

/// Fees in full stand for the same where each of their parts does.
pub proof fn law_fee_details_show_each_part<B: Balance>(first: FeeDetails<B>, second: FeeDetails<B>)
    ensures
        first.model() == second.model() <==> {
            &&& first.tip.amount() == second.tip.amount()
            &&& first.inclusion_fee is Some <==> second.inclusion_fee is Some
            &&& first.inclusion_fee is Some ==> {
                let a = first.inclusion_fee->0;
                let b = second.inclusion_fee->0;
                &&& a.base_fee.amount() == b.base_fee.amount()
                &&& a.len_fee.amount() == b.len_fee.amount()
                &&& a.adjusted_weight_fee.amount() == b.adjusted_weight_fee.amount()
            }
        },
        first.model().tip == first.tip.amount(),
        first.inclusion_fee matches Some(fee) ==> {
            &&& first.model().inclusion_fee->0.base_fee == fee.base_fee.amount()
            &&& first.model().inclusion_fee->0.len_fee == fee.len_fee.amount()
            &&& first.model().inclusion_fee->0.adjusted_weight_fee
                == fee.adjusted_weight_fee.amount()
            &&& first.model().total() == fee.base_fee.amount() + fee.len_fee.amount()
                + fee.adjusted_weight_fee.amount() + first.tip.amount()
        },
        first.inclusion_fee is None ==> first.model().total() == first.tip.amount(),
{
}

/// Balances are the integers of their type.
pub proof fn law_balances_are_integers(a: u32, b: u64, c: u128)
    ensures
        a.amount() == a && u32::limit() == u32::MAX && u32::of_amount(a as nat) == a,
        b.amount() == b && u64::limit() == u64::MAX && u64::of_amount(b as nat) == b,
        c.amount() == c && u128::limit() == u128::MAX && u128::of_amount(c as nat) == c,
{
}

/// A payment is divided without loss. An account that is gone gets nothing back, and one that exists
/// what it paid above the corrected fee. Of the rest the tip is paid in full where that is possible,
/// and nothing is kept as the fee where it is not.
pub proof fn law_settlement_divides_without_loss(
    paid: nat,
    corrected_fee: nat,
    tip: nat,
    payer_exists: bool,
)
    ensures
        ({
            let (refund, kept_fee, kept_tip) = CurrencyAdapter::divided(
                paid,
                corrected_fee,
                tip,
                payer_exists,
            );
            &&& refund + kept_fee + kept_tip == paid
            &&& !payer_exists ==> refund == 0
            &&& payer_exists && paid <= corrected_fee ==> refund == 0
            &&& payer_exists && paid > corrected_fee ==> kept_fee + kept_tip == corrected_fee
            &&& tip + refund <= paid ==> kept_tip == tip
            &&& tip + refund > paid ==> kept_fee == 0
        }),
{
}

/// The configuration holds together exactly where the normal class has a weight limit and, unless
/// the target is below one hundred, the multiplier rises from its minimum after a block one percent
/// above the target.
pub proof fn law_integrity_is_recovery_from_the_minimum<T: Config>(
    module: Module<T>,
    max_total: Weight,
    target: nat,
    consumed: ConsumedWeight,
)
    requires
        module.config.spec_block_weights().per_class.normal.max_total == Some(max_total),
        ({
            let parts = module.config.spec_fee_multiplier_update().spec_target().spec_parts();
            &&& 2 * (parts * max_total) <= 2 * (target * 1_000_000_000_000_000_000)
                + 1_000_000_000_000_000_000
            &&& 2 * (target * 1_000_000_000_000_000_000) < 2 * (parts * max_total)
                + 1_000_000_000_000_000_000
        }),
        100 * (consumed.normal - target) <= target < 100 * (consumed.normal - target) + 100,
        consumed.operational == 0,
        consumed.mandatory == 0,
    ensures
        ({
            let update = module.config.spec_fee_multiplier_update();
            let next = update.next(
                update.spec_min(),
                module.config.spec_block_weights(),
                consumed,
            );
            &&& module.integrity() is Ok <==> target < 100 || next.inner > update.spec_min().inner
            &&& module.integrity() is Err ==> module.integrity() == Err::<(), _>(
                IntegrityError::MinimumTooLow,
            )
        }),
{
    lemma_portion(
        module.config.spec_fee_multiplier_update().spec_target().spec_parts(),
        max_total as nat,
        target,
    );
    assert(module.target_weight() == target);
    assert(consumed.normal == target + target / 100);
}

/// A configuration whose normal class has no weight limit does not hold together.
pub proof fn law_integrity_needs_a_normal_limit<T: Config>(module: Module<T>)
    ensures
        module.config.spec_block_weights().per_class.normal.max_total is None
            <==> module.integrity() == Err::<(), _>(IntegrityError::NoNormalLimit),
{
}

} // verus!
