//! The charge that a transaction carries: it pays the fee and may add a tip to gain priority.

use vstd::prelude::*;

use super::module::{BalanceOf, Config, Module};
use super::payment::OnChargeTransaction;
use crate::balance::Balance;
use crate::fixed::saturate;
use crate::text::{append_decimal, decimal};
use crate::weights::{DispatchClass, DispatchInfo, PostDispatchInfo, TransactionPriority};

use vstd::string::StringExecFns;

use sp_runtime::transaction_validity::TransactionValidityError;

verus! {

/// Who pays.
pub type AccountIdOf<T> =
    <<T as Config>::OnChargeTransaction as OnChargeTransaction>::AccountId;

/// What is executed.
pub type CallOf<T> = <<T as Config>::OnChargeTransaction as OnChargeTransaction>::Call;

/// What is kept of a withdrawal until the fee is corrected.
pub type LiquidityInfoOf<T> =
    <<T as Config>::OnChargeTransaction as OnChargeTransaction>::LiquidityInfo;

/// What is known of a transaction that may enter the queue.
#[derive(PartialEq, Eq, Debug)]
pub struct ValidTransaction {
    /// The rank of the transaction in the queue.
    pub priority: TransactionPriority,
    /// The tags of transactions that have to come before.
    pub required_tags: Vec<Vec<u8>>,
    /// The tags that the transaction provides.
    pub provided_tags: Vec<Vec<u8>>,
    /// The number of blocks that the transaction stays valid for.
    pub longevity: u64,
    /// Whether the transaction is sent to other nodes.
    pub propagate: bool,
}

/// What is kept of a transaction while it is executed.
pub struct Pre<T: Config> {
    /// The tip.
    pub tip: BalanceOf<T>,
    /// Who paid the fee.
    pub who: AccountIdOf<T>,
    /// What is kept of the withdrawal.
    pub imbalance: LiquidityInfoOf<T>,
}

/// The lower 32 bits of a length.
pub open spec fn low_bits(len: usize) -> u32 {
    (len as nat % 0x1_0000_0000) as u32
}

fn truncate_len(len: usize) -> (r: u32)
    ensures
        r == low_bits(len),
{
    (len as u64 % 0x1_0000_0000) as u32
}

/// How many times a transaction of the given weight and length fits into a block, by whichever of
/// the two it uses more of.
pub open spec fn block_share(max_weight: u64, max_len: u32, weight: u64, len: usize) -> nat {
    let by_weight = max_weight as nat / if weight == 0 {
        1
    } else {
        weight as nat
    };
    let by_len = max_len as nat / if len == 0 {
        1
    } else {
        len as nat
    };
    if by_weight <= by_len {
        by_weight
    } else {
        by_len
    }
}

/// The charge of a transaction: the fee, and a tip on top of it.
pub struct ChargeTransactionPayment<T: Config> {
    /// The tip.
    pub tip: BalanceOf<T>,
}

impl<T: Config> ChargeTransactionPayment<T> {
    /// The fee to withdraw for a transaction.
    pub open spec fn fee(self, module: Module<T>, info: DispatchInfo, len: usize) -> BalanceOf<T> {
        BalanceOf::<T>::of_amount(module.spec_fee(low_bits(len), info, self.tip))
    }

    /// The priority of a transaction that pays the given fee.
    pub open spec fn priority(
        module: Module<T>,
        len: usize,
        info: DispatchInfo,
        final_fee: BalanceOf<T>,
    ) -> nat {
        let share = block_share(
            module.config.spec_block_weights().max_block,
            module.config.spec_block_length().max.normal,
            info.weight,
            len,
        );
        let limit = BalanceOf::<T>::limit();
        saturate(
            saturate(final_fee.amount() * saturate(share, limit), limit),
            u64::MAX as nat,
        )
    }

    /// The charge with the given tip.
    pub fn from(fee: BalanceOf<T>) -> (r: Self)
        ensures
            r.tip == fee,
    {
        ChargeTransactionPayment { tip: fee }
    }

    /// Withdraws the fee, and returns it with what is kept of the withdrawal.
    pub fn withdraw_fee(
        &self,
        module: &Module<T>,
        handler: &mut T::OnChargeTransaction,
        who: &AccountIdOf<T>,
        call: &CallOf<T>,
        info: &DispatchInfo,
        len: usize,
    ) -> (r: Result<(BalanceOf<T>, LiquidityInfoOf<T>), TransactionValidityError>)
        ensures
            T::OnChargeTransaction::withdrawn(
                *old(handler),
                *who,
                *call,
                *info,
                self.fee(*module, *info, len),
                self.tip,
                *final(handler),
                match r {
                    Ok((_, imbalance)) => Ok(imbalance),
                    Err(error) => Err(error),
                },
            ),
            r matches Ok((fee, _)) ==> fee == self.fee(*module, *info, len),
    {
        let tip = self.tip;
        let fee = module.compute_fee(truncate_len(len), info, tip);
        proof {
            fee.lemma_of_amount();
        }
        match handler.withdraw_fee(who, call, info, fee, tip) {
            Ok(imbalance) => Ok((fee, imbalance)),
            Err(error) => Err(error),
        }
    }

    /// The priority of a transaction that pays the given fee: the fee, times how often the
    /// transaction fits into a block.
    pub fn get_priority(
        module: &Module<T>,
        len: usize,
        info: &DispatchInfo,
        final_fee: BalanceOf<T>,
    ) -> (r: TransactionPriority)
        ensures
            r == Self::priority(*module, len, *info, final_fee),
    {
        let weight: u64 = if info.weight == 0 {
            1
        } else {
            info.weight
        };
        let weight_saturation: u64 = module.config.block_weights().max_block / weight;
        let max_block_length: u32 = *module.config.block_length().max.get(DispatchClass::Normal);
        let length: u64 = if len == 0 {
            1
        } else {
            len as u64
        };
        let len_saturation: u64 = max_block_length as u64 / length;
        let share: u64 = if weight_saturation <= len_saturation {
            weight_saturation
        } else {
            len_saturation
        };
        let coefficient = BalanceOf::<T>::saturated_from_u64(share);
        final_fee.saturating_mul(coefficient).saturated_into_u64()
    }

    /// The charge as text, for people who look for errors.
    pub fn debug_text(&self) -> (r: String)
        ensures
            r@ == "ChargeTransactionPayment<"@ + decimal(self.tip.amount()) + ">"@,
    {
        let mut r = String::new();
        r.append("ChargeTransactionPayment<");
        append_decimal(&mut r, self.tip.to_u128());
        r.append(">");
        assert(r@ =~= "ChargeTransactionPayment<"@ + decimal(self.tip.amount()) + ">"@);
        r
    }

    /// There is nothing to sign besides the transaction.
    pub fn additional_signed(&self) -> (r: Result<(), TransactionValidityError>)
        ensures
            r == Ok::<(), TransactionValidityError>(()),
    {
        Ok(())
    }

    /// The entry of a transaction in the queue, or the error, that a withdrawal of `fee` with the
    /// given outcome leads to.
    pub fn validity(
        module: &Module<T>,
        info: &DispatchInfo,
        len: usize,
        fee: BalanceOf<T>,
        outcome: Result<LiquidityInfoOf<T>, TransactionValidityError>,
    ) -> (r: Result<ValidTransaction, TransactionValidityError>)
        ensures
            r is Ok <==> outcome is Ok,
            r matches Err(error) ==> outcome == Err::<LiquidityInfoOf<T>, _>(error),
            r matches Ok(valid) ==> {
                &&& valid.priority == Self::priority(*module, len, *info, fee)
                &&& valid.required_tags@.len() == 0
                &&& valid.provided_tags@.len() == 0
                &&& valid.longevity == u64::MAX
                &&& valid.propagate
            },
    {
        match outcome {
            Ok(_) => Ok(
                ValidTransaction {
                    priority: Self::get_priority(module, len, info, fee),
                    required_tags: Vec::new(),
                    provided_tags: Vec::new(),
                    longevity: u64::MAX,
                    propagate: true,
                },
            ),
            Err(error) => Err(error),
        }
    }

    /// Decides whether a transaction may enter the queue: the fee has to be withdrawn for it.
    pub fn validate(
        &self,
        module: &Module<T>,
        handler: &mut T::OnChargeTransaction,
        who: &AccountIdOf<T>,
        call: &CallOf<T>,
        info: &DispatchInfo,
        len: usize,
    ) -> (r: Result<ValidTransaction, TransactionValidityError>)
        ensures
            exists|outcome: Result<LiquidityInfoOf<T>, TransactionValidityError>|
                {
                    &&& #[trigger] T::OnChargeTransaction::withdrawn(
                        *old(handler),
                        *who,
                        *call,
                        *info,
                        self.fee(*module, *info, len),
                        self.tip,
                        *final(handler),
                        outcome,
                    )
                    &&& r is Ok <==> outcome is Ok
                    &&& r matches Err(error) ==> outcome == Err::<LiquidityInfoOf<T>, _>(error)
                },
            r matches Ok(valid) ==> {
                &&& valid.priority == Self::priority(
                    *module,
                    len,
                    *info,
                    self.fee(*module, *info, len),
                )
                &&& valid.required_tags@.len() == 0
                &&& valid.provided_tags@.len() == 0
                &&& valid.longevity == u64::MAX
                &&& valid.propagate
            },
    {
        match self.withdraw_fee(module, handler, who, call, info, len) {
            Ok((fee, imbalance)) => Self::validity(module, info, len, fee, Ok(imbalance)),
            Err(error) => Err(error),
        }
    }

    /// Withdraws the fee before the transaction is executed.
    pub fn pre_dispatch(
        self,
        module: &Module<T>,
        handler: &mut T::OnChargeTransaction,
        who: &AccountIdOf<T>,
        call: &CallOf<T>,
        info: &DispatchInfo,
        len: usize,
    ) -> (r: Result<Pre<T>, TransactionValidityError>)
        ensures
            T::OnChargeTransaction::withdrawn(
                *old(handler),
                *who,
                *call,
                *info,
                self.fee(*module, *info, len),
                self.tip,
                *final(handler),
                match r {
                    Ok(pre) => Ok(pre.imbalance),
                    Err(error) => Err(error),
                },
            ),
            r matches Ok(pre) ==> pre.tip == self.tip && cloned(*who, pre.who),
    {
        match self.withdraw_fee(module, handler, who, call, info, len) {
            Ok((_fee, imbalance)) => Ok(Pre { tip: self.tip, who: who.clone(), imbalance }),
            Err(error) => Err(error),
        }
    }

    /// Corrects the fee once the transaction was executed. The outcome of the transaction does
    /// not matter for the fee.
    pub fn post_dispatch<E>(
        module: &Module<T>,
        handler: &mut T::OnChargeTransaction,
        pre: Pre<T>,
        info: &DispatchInfo,
        post_info: &PostDispatchInfo,
        len: usize,
        _result: &Result<(), E>,
    ) -> (r: Result<(), TransactionValidityError>)
        ensures
            T::OnChargeTransaction::corrected(
                *old(handler),
                pre.who,
                *info,
                *post_info,
                BalanceOf::<T>::of_amount(
                    module.spec_actual_fee(low_bits(len), *info, *post_info, pre.tip),
                ),
                pre.tip,
                pre.imbalance,
                *final(handler),
                r,
            ),
    {
        let actual_fee = module.compute_actual_fee(truncate_len(len), info, post_info, pre.tip);
        proof {
            actual_fee.lemma_of_amount();
        }
        handler.correct_and_deposit_fee(
            &pre.who,
            info,
            post_info,
            actual_fee,
            pre.tip,
            pre.imbalance,
        )
    }
}

} // verus!
