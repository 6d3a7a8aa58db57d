//! The parts of a fee.

use vstd::prelude::*;

use crate::balance::Balance;
use crate::fixed::saturate;
use crate::weights::{DispatchClass, Weight};

verus! {

/// The fee that a transaction pays for its inclusion in a block.
#[derive(Clone, Copy, PartialEq, Eq, Debug)]
pub struct InclusionFee<B> {
    /// The minimum that a transaction pays.
    pub base_fee: B,
    /// The fee for the encoded length of the transaction.
    pub len_fee: B,
    /// The fee for the weight of the transaction, adjusted by the multiplier.
    pub adjusted_weight_fee: B,
}

/// The amounts of an inclusion fee.
pub struct InclusionFeeModel {
    pub base_fee: nat,
    pub len_fee: nat,
    pub adjusted_weight_fee: nat,
}

impl InclusionFeeModel {
    /// The sum of the parts.
    pub open spec fn total(self) -> nat {
        self.base_fee + self.len_fee + self.adjusted_weight_fee
    }
}

impl<B: Balance> InclusionFee<B> {
    /// The amounts.
    pub open spec fn model(self) -> InclusionFeeModel {
        InclusionFeeModel {
            base_fee: self.base_fee.amount(),
            len_fee: self.len_fee.amount(),
            adjusted_weight_fee: self.adjusted_weight_fee.amount(),
        }
    }

    /// The sum of the parts, or the limit of the balance type where the sum lies above it.
    pub fn inclusion_fee(&self) -> (r: B)
        ensures
            r.amount() == saturate(self.model().total(), B::limit()),
    {
        self.base_fee.saturating_add(self.len_fee).saturating_add(self.adjusted_weight_fee)
    }
}

/// A fee in full: the inclusion fee, where it is due, and the tip.
#[derive(Clone, Copy, PartialEq, Eq, Debug)]
pub struct FeeDetails<B> {
    /// The inclusion fee, where the transaction pays it.
    pub inclusion_fee: Option<InclusionFee<B>>,
    /// The tip.
    pub tip: B,
}

/// The amounts of a fee.
pub struct FeeModel {
    pub inclusion_fee: Option<InclusionFeeModel>,
    pub tip: nat,
}

impl FeeModel {
    /// The sum of the inclusion fee and the tip.
    pub open spec fn total(self) -> nat {
        match self.inclusion_fee {
            Some(inclusion_fee) => inclusion_fee.total() + self.tip,
            None => self.tip,
        }
    }
}

impl<B: Balance> FeeDetails<B> {
    /// The amounts.
    pub open spec fn model(self) -> FeeModel {
        FeeModel {
            inclusion_fee: match self.inclusion_fee {
                Some(inclusion_fee) => Some(inclusion_fee.model()),
                None => None,
            },
            tip: self.tip.amount(),
        }
    }

    /// The inclusion fee plus the tip, or the limit of the balance type where the sum lies above
    /// it.
    pub fn final_fee(&self) -> (r: B)
        ensures
            r.amount() == saturate(self.model().total(), B::limit()),
    {
        proof {
            self.tip.lemma_amount_bounded();
        }
        match &self.inclusion_fee {
            Some(inclusion_fee) => inclusion_fee.inclusion_fee().saturating_add(self.tip),
            None => B::zero().saturating_add(self.tip),
        }
    }
}

/// What can be told of a transaction's fee before it is submitted.
#[derive(Clone, Copy, PartialEq, Eq, Debug)]
pub struct RuntimeDispatchInfo<B> {
    /// The weight of the transaction.
    pub weight: Weight,
    /// The class of the transaction.
    pub class: DispatchClass,
    /// The inclusion fee of the transaction, without a tip.
    pub partial_fee: B,
}

} // verus!
