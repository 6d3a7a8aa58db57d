//! The computation of fees.

use vstd::prelude::*;

use super::adjustment::{Multiplier, MultiplierUpdate};
use super::payment::OnChargeTransaction;
use super::types::{FeeDetails, FeeModel, InclusionFee, InclusionFeeModel, RuntimeDispatchInfo};
use crate::balance::Balance;
use crate::fixed::{fixed_scaled, portion, saturate, ACCURACY};
use crate::weights::{
    BlockLength, BlockWeights, ConsumedWeight, DispatchClass, DispatchInfo, Pays, PerDispatchClass,
    PostDispatchInfo, Weight,
};

verus! {

/// What fees are counted in.
pub type BalanceOf<T> =
    <<T as Config>::OnChargeTransaction as OnChargeTransaction>::Balance;

/// What a runtime sets for the payment of fees.
pub trait Config: Sized {
    /// The handler that withdraws, refunds and deposits fees.
    type OnChargeTransaction: OnChargeTransaction;

    /// The rule that updates the multiplier after each block.
    type FeeMultiplierUpdate: MultiplierUpdate;

    /// The fee for one byte of a transaction.
    spec fn spec_transaction_byte_fee(&self) -> BalanceOf<Self>;

    /// The fee for a weight.
    spec fn spec_weight_to_fee(&self, weight: Weight) -> BalanceOf<Self>;

    /// The rule that updates the multiplier.
    spec fn spec_fee_multiplier_update(&self) -> Self::FeeMultiplierUpdate;

    /// The weight limits of a block.
    spec fn spec_block_weights(&self) -> BlockWeights;

    /// The length limits of a block.
    spec fn spec_block_length(&self) -> BlockLength;

    /// The fee for one byte of a transaction.
    fn transaction_byte_fee(&self) -> (r: BalanceOf<Self>)
        ensures
            r == self.spec_transaction_byte_fee(),
    ;

    /// The fee for a weight.
    fn weight_to_fee(&self, weight: &Weight) -> (r: BalanceOf<Self>)
        ensures
            r == self.spec_weight_to_fee(*weight),
    ;

    /// The rule that updates the multiplier.
    fn fee_multiplier_update(&self) -> (r: Self::FeeMultiplierUpdate)
        ensures
            r == self.spec_fee_multiplier_update(),
    ;

    /// The weight limits of a block.
    fn block_weights(&self) -> (r: BlockWeights)
        ensures
            r == self.spec_block_weights(),
    ;

    /// The length limits of a block.
    fn block_length(&self) -> (r: BlockLength)
        ensures
            r == self.spec_block_length(),
    ;
}

/// The layout of the module's storage.
#[derive(Clone, Copy, PartialEq, Eq, Debug, Structural)]
pub enum Releases {
    /// The first layout.
    V1Ancient,
    /// The layout with an unsigned multiplier.
    V2,
}

impl Default for Releases {
    fn default() -> (r: Self)
        ensures
            r == Releases::V1Ancient,
    {
        Releases::V1Ancient
    }
}

/// Why a configuration does not hold together.
#[derive(Clone, Copy, PartialEq, Eq, Debug, Structural)]
pub enum IntegrityError {
    /// The normal class has no weight limit of its own.
    NoNormalLimit,
    /// From the minimum the multiplier does not rise after a block one percent above the target.
    MinimumTooLow,
}

/// The state of the module.
pub struct Module<T: Config> {
    /// What the runtime sets.
    pub config: T,
    /// The multiplier of weight fees in the current block.
    pub next_fee_multiplier: Multiplier,
    /// The layout of the storage.
    pub storage_version: Releases,
}

impl<T: Config> Module<T> {
    /// The fee for a weight, which counts up to the maximum of a block, before adjustment.
    pub open spec fn spec_weight_to_fee(self, weight: Weight) -> BalanceOf<T> {
        let max_block = self.config.spec_block_weights().max_block;
        self.config.spec_weight_to_fee(
            if weight <= max_block {
                weight
            } else {
                max_block
            },
        )
    }

    /// The fee for a weight, adjusted by the multiplier.
    pub open spec fn adjusted_weight_fee(self, weight: Weight) -> nat {
        saturate(
            fixed_scaled(
                self.next_fee_multiplier.inner as nat,
                self.spec_weight_to_fee(weight).amount(),
            ),
            BalanceOf::<T>::limit(),
        )
    }

    /// The parts of the fee of a transaction of the given length, weight, tip and class.
    pub open spec fn fee_model(
        self,
        len: u32,
        weight: Weight,
        tip: BalanceOf<T>,
        pays_fee: Pays,
        class: DispatchClass,
    ) -> FeeModel {
        FeeModel {
            inclusion_fee: if pays_fee == Pays::Yes {
                Some(
                    InclusionFeeModel {
                        base_fee: self.spec_weight_to_fee(
                            self.config.spec_block_weights().per_class.of(class).base_extrinsic,
                        ).amount(),
                        len_fee: saturate(
                            self.config.spec_transaction_byte_fee().amount() * len as nat,
                            BalanceOf::<T>::limit(),
                        ),
                        adjusted_weight_fee: self.adjusted_weight_fee(weight),
                    },
                )
            } else {
                None
            },
            tip: tip.amount(),
        }
    }

    /// The fee of a transaction before it is executed.
    pub open spec fn spec_fee(self, len: u32, info: DispatchInfo, tip: BalanceOf<T>) -> nat {
        saturate(
            self.fee_model(len, info.weight, tip, info.pays_fee, info.class).total(),
            BalanceOf::<T>::limit(),
        )
    }

    /// The fee of a transaction once it was executed.
    pub open spec fn spec_actual_fee(
        self,
        len: u32,
        info: DispatchInfo,
        post_info: PostDispatchInfo,
        tip: BalanceOf<T>,
    ) -> nat {
        saturate(
            self.fee_model(
                len,
                post_info.charged_weight(info),
                tip,
                post_info.fee_due(info),
                info.class,
            ).total(),
            BalanceOf::<T>::limit(),
        )
    }

    /// The state at genesis: the multiplier is one.
    pub fn new(config: T) -> (r: Self)
        ensures
            r.config == config,
            r.next_fee_multiplier.inner == ACCURACY,
            r.storage_version == Releases::V2,
    {
        Module {
            config,
            next_fee_multiplier: Multiplier::one(),
            storage_version: Releases::V2,
        }
    }

    /// The multiplier of weight fees in the current block.
    pub fn next_fee_multiplier(&self) -> (r: Multiplier)
        ensures
            r == self.next_fee_multiplier,
    {
        self.next_fee_multiplier
    }

    /// Ends a block of the given weight: the multiplier moves on as the update rule says.
    pub fn on_finalize(&mut self, consumed: &ConsumedWeight)
        ensures
            final(self).next_fee_multiplier
                == old(self).config.spec_fee_multiplier_update().next(
                old(self).next_fee_multiplier,
                old(self).config.spec_block_weights(),
                *consumed,
            ),
            final(self).config == old(self).config,
            final(self).storage_version == old(self).storage_version,
    {
        let weights = self.config.block_weights();
        let update = self.config.fee_multiplier_update();
        self.next_fee_multiplier = update.convert(self.next_fee_multiplier, &weights, consumed);
    }

    /// The weight that the integrity test fills a block to.
    pub open spec fn target_weight(self) -> nat {
        portion(
            self.config.spec_fee_multiplier_update().spec_target().spec_parts(),
            self.config.spec_block_weights().normal_capacity() as nat,
        )
    }

    /// Whether the configuration holds together.
    pub open spec fn integrity(self) -> Result<(), IntegrityError> {
        let update = self.config.spec_fee_multiplier_update();
        let weights = self.config.spec_block_weights();
        let target = self.target_weight();
        let consumed: ConsumedWeight = PerDispatchClass {
            normal: (target + target / 100) as u64,
            operational: 0,
            mandatory: 0,
        };
        if weights.per_class.normal.max_total is None {
            Err(IntegrityError::NoNormalLimit)
        } else if target >= 100 && update.next(update.spec_min(), weights, consumed).inner
            <= update.spec_min().inner {
            Err(IntegrityError::MinimumTooLow)
        } else {
            Ok(())
        }
    }

    /// Checks that the configuration holds together: that the normal class has a weight limit,
    /// and that from its minimum the multiplier rises after a block that is one percent above
    /// the target. A target so low that one percent of it is nothing passes.
    pub fn integrity_test(&self) -> (r: Result<(), IntegrityError>)
        requires
            self.config.spec_block_weights().per_class.normal.max_total is Some
                ==> self.target_weight() + self.target_weight() / 100 <= u64::MAX,
        ensures
            r == self.integrity(),
            r == Err::<(), _>(IntegrityError::NoNormalLimit)
                <==> self.config.spec_block_weights().per_class.normal.max_total is None,
            r == Err::<(), _>(IntegrityError::MinimumTooLow) <==> {
                let update = self.config.spec_fee_multiplier_update();
                let weights = self.config.spec_block_weights();
                let filled = self.target_weight() + self.target_weight() / 100;
                &&& weights.per_class.normal.max_total is Some
                &&& self.target_weight() >= 100
                &&& update.next(
                    update.spec_min(),
                    weights,
                    PerDispatchClass { normal: filled as u64, operational: 0, mandatory: 0 },
                ).inner <= update.spec_min().inner
            },
    {
        let update = self.config.fee_multiplier_update();
        let weights = self.config.block_weights();
        let min_value = update.min();
        let max_total: u64 = match weights.get(DispatchClass::Normal).max_total {
            Some(max_total) => max_total,
            None => {
                return Err(IntegrityError::NoNormalLimit);
            },
        };
        let target: u64 = update.target().mul(max_total);
        let addition: u64 = target / 100;
        if addition == 0 {
            return Ok(());
        }
        let consumed: ConsumedWeight = PerDispatchClass {
            normal: target + addition,
            operational: 0,
            mandatory: 0,
        };
        let next = update.convert(min_value, &weights, &consumed);
        if next.inner > min_value.inner {
            Ok(())
        } else {
            Err(IntegrityError::MinimumTooLow)
        }
    }

    /// What can be told of the fee of a transaction that announces `dispatch_info`, without a
    /// tip.
    pub fn query_info(&self, dispatch_info: DispatchInfo, len: u32) -> (r: RuntimeDispatchInfo<
        BalanceOf<T>,
    >)
        ensures
            r.weight == dispatch_info.weight,
            r.class == dispatch_info.class,
            r.partial_fee.amount() == self.spec_fee(
                len,
                dispatch_info,
                BalanceOf::<T>::of_amount(0),
            ),
    {
        let tip = BalanceOf::<T>::zero();
        proof {
            tip.lemma_of_amount();
        }
        let partial_fee = self.compute_fee(len, &dispatch_info, tip);
        RuntimeDispatchInfo { weight: dispatch_info.weight, class: dispatch_info.class, partial_fee }
    }

    /// The parts of the fee of a transaction that announces `dispatch_info`, without a tip.
    pub fn query_fee_details(&self, dispatch_info: DispatchInfo, len: u32) -> (r: FeeDetails<
        BalanceOf<T>,
    >)
        ensures
            r.model() == self.fee_model(
                len,
                dispatch_info.weight,
                BalanceOf::<T>::of_amount(0),
                dispatch_info.pays_fee,
                dispatch_info.class,
            ),
            r.tip.amount() == 0,
    {
        let tip = BalanceOf::<T>::zero();
        proof {
            tip.lemma_of_amount();
        }
        self.compute_fee_details(len, &dispatch_info, tip)
    }

    /// The final fee of a transaction.
    pub fn compute_fee(&self, len: u32, info: &DispatchInfo, tip: BalanceOf<T>) -> (r: BalanceOf<
        T,
    >)
        ensures
            r.amount() == self.spec_fee(len, *info, tip),
    {
        self.compute_fee_details(len, info, tip).final_fee()
    }

    /// The parts of the fee of a transaction.
    pub fn compute_fee_details(&self, len: u32, info: &DispatchInfo, tip: BalanceOf<T>) -> (r:
        FeeDetails<BalanceOf<T>>)
        ensures
            r.model() == self.fee_model(len, info.weight, tip, info.pays_fee, info.class),
    {
        self.compute_fee_raw(len, info.weight, tip, info.pays_fee, info.class)
    }

    /// The final fee of a transaction that was executed: as `compute_fee`, with the weight that
    /// the transaction turned out to have.
    pub fn compute_actual_fee(
        &self,
        len: u32,
        info: &DispatchInfo,
        post_info: &PostDispatchInfo,
        tip: BalanceOf<T>,
    ) -> (r: BalanceOf<T>)
        ensures
            r.amount() == self.spec_actual_fee(len, *info, *post_info, tip),
    {
        self.compute_actual_fee_details(len, info, post_info, tip).final_fee()
    }

    /// The parts of the fee of a transaction that was executed.
    pub fn compute_actual_fee_details(
        &self,
        len: u32,
        info: &DispatchInfo,
        post_info: &PostDispatchInfo,
        tip: BalanceOf<T>,
    ) -> (r: FeeDetails<BalanceOf<T>>)
        ensures
            r.model() == self.fee_model(
                len,
                post_info.charged_weight(*info),
                tip,
                post_info.fee_due(*info),
                info.class,
            ),
    {
        self.compute_fee_raw(
            len,
            post_info.calc_actual_weight(info),
            tip,
            post_info.pays_fee(info),
            info.class,
        )
    }

    /// The parts of the fee of a transaction of the given length, weight, tip and class.
    pub fn compute_fee_raw(
        &self,
        len: u32,
        weight: Weight,
        tip: BalanceOf<T>,
        pays_fee: Pays,
        class: DispatchClass,
    ) -> (r: FeeDetails<BalanceOf<T>>)
        ensures
            r.model() == self.fee_model(len, weight, tip, pays_fee, class),
            r.tip == tip,
    {
        if pays_fee == Pays::Yes {
            let len = BalanceOf::<T>::from_u32(len);
            let per_byte = self.config.transaction_byte_fee();
            let fixed_len_fee = per_byte.saturating_mul(len);

            let unadjusted_weight_fee = self.weight_to_fee(weight);
            let multiplier = self.next_fee_multiplier();
            let adjusted_weight_fee = unadjusted_weight_fee.scaled_by(multiplier);

            let base_fee = self.weight_to_fee(
                self.config.block_weights().get(class).base_extrinsic,
            );
            FeeDetails {
                inclusion_fee: Some(
                    InclusionFee { base_fee, len_fee: fixed_len_fee, adjusted_weight_fee },
                ),
                tip,
            }
        } else {
            FeeDetails { inclusion_fee: None, tip }
        }
    }

    /// The fee for a weight, which counts up to the maximum of a block, before adjustment.
    pub fn weight_to_fee(&self, weight: Weight) -> (r: BalanceOf<T>)
        ensures
            r == self.spec_weight_to_fee(weight),
    {
        let max_block: u64 = self.config.block_weights().max_block;
        let capped_weight: u64 = if weight <= max_block {
            weight
        } else {
            max_block
        };
        self.config.weight_to_fee(&capped_weight)
    }

    /// The fee for a weight, adjusted by the multiplier: the share of the weight in the fee of a
    /// transaction.
    pub fn convert(&self, weight: Weight) -> (r: BalanceOf<T>)
        ensures
            r.amount() == self.adjusted_weight_fee(weight),
    {
        self.weight_to_fee(weight).scaled_by(self.next_fee_multiplier)
    }
}

} // verus!
