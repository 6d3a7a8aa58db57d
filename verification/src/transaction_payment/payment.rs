//! Withdrawing, refunding and depositing of fees.

use vstd::prelude::*;

use crate::balance::Balance;
use crate::fixed::saturate;
use crate::weights::{DispatchInfo, PostDispatchInfo};

use sp_runtime::transaction_validity::TransactionValidityError;

verus! {

/// Declares `sp_runtime::transaction_validity::TransactionValidityError`, the reason why a
/// transaction is refused, which is handed on as it comes. Nothing is claimed of it.
#[verifier::external_type_specification]
#[verifier::external_body]
pub struct ExTransactionValidityError(sp_runtime::transaction_validity::TransactionValidityError);

/// Handles the payment of fees. The full fee is withdrawn before a transaction is executed.
/// Once it was executed the fee is corrected to what the transaction used, and deposited.
///
/// `withdrawn` and `corrected` relate what a method is handed to what it leaves and returns. They
/// are up to the implementor.
pub trait OnChargeTransaction: Sized {
    /// Who pays.
    type AccountId: Clone;

    /// What is executed.
    type Call;

    /// What fees are counted in.
    type Balance: Balance;

    /// What is kept of a withdrawal until the fee is corrected.
    type LiquidityInfo;

    /// Whether `withdraw_fee` on `before` can leave `after` and return `outcome`.
    spec fn withdrawn(
        before: Self,
        who: Self::AccountId,
        call: Self::Call,
        info: DispatchInfo,
        fee: Self::Balance,
        tip: Self::Balance,
        after: Self,
        outcome: Result<Self::LiquidityInfo, TransactionValidityError>,
    ) -> bool;

    /// Whether `correct_and_deposit_fee` on `before` can leave `after` and return `outcome`.
    spec fn corrected(
        before: Self,
        who: Self::AccountId,
        info: DispatchInfo,
        post_info: PostDispatchInfo,
        corrected_fee: Self::Balance,
        tip: Self::Balance,
        already_withdrawn: Self::LiquidityInfo,
        after: Self,
        outcome: Result<(), TransactionValidityError>,
    ) -> bool;

    /// Withdraws `fee`, which includes `tip`, from `who` before `call` is executed.
    fn withdraw_fee(
        &mut self,
        who: &Self::AccountId,
        call: &Self::Call,
        info: &DispatchInfo,
        fee: Self::Balance,
        tip: Self::Balance,
    ) -> (r: Result<Self::LiquidityInfo, TransactionValidityError>)
        ensures
            Self::withdrawn(*old(self), *who, *call, *info, fee, tip, *final(self), r),
    ;

    /// Refunds to `who` what was withdrawn above `corrected_fee`, which includes `tip`, and
    /// deposits the rest.
    fn correct_and_deposit_fee(
        &mut self,
        who: &Self::AccountId,
        info: &DispatchInfo,
        post_info: &PostDispatchInfo,
        corrected_fee: Self::Balance,
        tip: Self::Balance,
        already_withdrawn: Self::LiquidityInfo,
    ) -> (r: Result<(), TransactionValidityError>)
        ensures
            Self::corrected(
                *old(self),
                *who,
                *info,
                *post_info,
                corrected_fee,
                tip,
                already_withdrawn,
                *final(self),
                r,
            ),
    ;
}

/// How a withdrawn fee is divided once the transaction was executed.
#[derive(Clone, Copy, PartialEq, Eq, Debug)]
pub struct Settlement<B> {
    /// What goes back to the payer.
    pub refund: B,
    /// What is deposited as the fee.
    pub fee: B,
    /// What is deposited as the tip.
    pub tip: B,
}

/// The decisions of charging fees through a currency.
pub struct CurrencyAdapter;

impl CurrencyAdapter {
    /// The amount to withdraw for a fee. There is none where the fee is zero, and then nothing is
    /// withdrawn or corrected.
    pub fn withdrawal<B: Balance>(fee: B) -> (r: Option<B>)
        ensures
            fee.amount() == 0 ==> r is None,
            fee.amount() != 0 ==> r == Some(fee),
    {
        if fee.is_zero() {
            None
        } else {
            Some(fee)
        }
    }

    /// The refund that is owed on a withdrawal.
    pub open spec fn refund_owed(paid: nat, corrected_fee: nat) -> nat {
        if paid >= corrected_fee {
            (paid - corrected_fee) as nat
        } else {
            0
        }
    }

    /// The refund that is owed on a withdrawal: what was paid above the corrected fee.
    pub fn refund<B: Balance>(paid: B, corrected_fee: B) -> (r: B)
        ensures
            r.amount() == Self::refund_owed(paid.amount(), corrected_fee.amount()),
    {
        paid.saturating_sub(corrected_fee)
    }

    /// The amounts of the refund, the fee and the tip that a payment is divided into. The tip takes
    /// what it can of what is not refunded, and the fee is the rest.
    pub open spec fn divided(paid: nat, corrected_fee: nat, tip: nat, payer_exists: bool) -> (
        nat,
        nat,
        nat,
    ) {
        let refund = if payer_exists {
            Self::refund_owed(paid, corrected_fee)
        } else {
            0
        };
        let kept = (paid - refund) as nat;
        let tip = saturate(tip, kept);
        (refund, (kept - tip) as nat, tip)
    }

    /// Divides what was paid into the refund, the fee and the tip. The account of the payer can
    /// be gone by now. It is not created anew: there is then no refund.
    pub fn settle<B: Balance>(paid: B, corrected_fee: B, tip: B, payer_exists: bool) -> (r:
        Settlement<B>)
        ensures
            r.refund.amount() == if payer_exists {
                Self::refund_owed(paid.amount(), corrected_fee.amount())
            } else {
                0
            },
            r.refund.amount() + r.fee.amount() + r.tip.amount() == paid.amount(),
            (r.refund.amount(), r.fee.amount(), r.tip.amount()) == Self::divided(
                paid.amount(),
                corrected_fee.amount(),
                tip.amount(),
                payer_exists,
            ),
            r.tip.amount() == saturate(
                tip.amount(),
                (paid.amount() - r.refund.amount()) as nat,
            ),
    {
        let refund = if payer_exists {
            Self::refund(paid, corrected_fee)
        } else {
            B::zero()
        };
        let kept = paid.saturating_sub(refund);
        let fee = kept.saturating_sub(tip);
        Settlement { refund, fee, tip: kept.saturating_sub(fee) }
    }
}

} // verus!
