use std::collections::BTreeMap;

use pallets::fixed::FixedU128;
use pallets::transaction_payment::adjustment::Multiplier;
use pallets::transaction_payment::charge::{ChargeTransactionPayment, Pre};
use pallets::transaction_payment::module::{Config, Module, Releases};
use pallets::transaction_payment::payment::{CurrencyAdapter, OnChargeTransaction, Settlement};
use pallets::transaction_payment::types::{FeeDetails, InclusionFee, RuntimeDispatchInfo};
use pallets::weights::{
    BlockLength, BlockWeights, DispatchClass, DispatchInfo, Pays, PerDispatchClass,
    PostDispatchInfo, Weight, WeightsPerClass,
};

use parity_scale_codec::{Compact, Encode};
use sp_runtime::testing::TestXt;
use sp_runtime::transaction_validity::{InvalidTransaction, TransactionValidityError};

const EXISTENTIAL_DEPOSIT: u64 = 1;

const CALL: &str = "transfer";

#[derive(Clone, PartialEq, Debug)]
enum LedgerEvent {
    Transfer(u64, u64, u64),
    KilledAccount(u64),
}

/// Free balances, and what was deposited as fees and tips.
#[derive(Clone, PartialEq, Debug, Default)]
struct Ledger {
    accounts: BTreeMap<u64, u64>,
    fee_unbalanced_amount: u64,
    tip_unbalanced_amount: u64,
    events: Vec<LedgerEvent>,
}

impl Ledger {
    fn free_balance(&self, who: u64) -> u64 {
        self.accounts.get(&who).copied().unwrap_or(0)
    }

    fn transfer(&mut self, from: u64, to: u64, amount: u64) -> Result<(), ()> {
        let left = self.free_balance(from).checked_sub(amount).ok_or(())?;
        *self.accounts.entry(to).or_insert(0) += amount;
        self.events.push(LedgerEvent::Transfer(from, to, amount));
        if left < EXISTENTIAL_DEPOSIT {
            self.accounts.remove(&from);
            self.events.push(LedgerEvent::KilledAccount(from));
        } else {
            self.accounts.insert(from, left);
        }
        Ok(())
    }
}

impl OnChargeTransaction for Ledger {
    type AccountId = u64;
    type Call = &'static str;
    type Balance = u64;
    type LiquidityInfo = Option<u64>;

    // The specification functions are never executed.

    fn withdrawn(
        _before: Self,
        _who: u64,
        _call: &'static str,
        _info: DispatchInfo,
        _fee: u64,
        _tip: u64,
        _after: Self,
        _outcome: Result<Option<u64>, TransactionValidityError>,
    ) -> bool {
        unreachable!()
    }

    fn corrected(
        _before: Self,
        _who: u64,
        _info: DispatchInfo,
        _post_info: PostDispatchInfo,
        _corrected_fee: u64,
        _tip: u64,
        _already_withdrawn: Option<u64>,
        _after: Self,
        _outcome: Result<(), TransactionValidityError>,
    ) -> bool {
        unreachable!()
    }

    fn withdraw_fee(
        &mut self,
        who: &u64,
        _call: &&'static str,
        _info: &DispatchInfo,
        fee: u64,
        _tip: u64,
    ) -> Result<Option<u64>, TransactionValidityError> {
        match CurrencyAdapter::withdrawal(fee) {
            None => Ok(None),
            Some(amount) => match self.free_balance(*who).checked_sub(amount) {
                Some(left) if left >= EXISTENTIAL_DEPOSIT => {
                    self.accounts.insert(*who, left);
                    Ok(Some(amount))
                }
                _ => Err(InvalidTransaction::Payment.into()),
            },
        }
    }

    fn correct_and_deposit_fee(
        &mut self,
        who: &u64,
        _info: &DispatchInfo,
        _post_info: &PostDispatchInfo,
        corrected_fee: u64,
        tip: u64,
        already_withdrawn: Option<u64>,
    ) -> Result<(), TransactionValidityError> {
        if let Some(paid) = already_withdrawn {
            let payer_exists = self.accounts.contains_key(who);
            let settlement = CurrencyAdapter::settle(paid, corrected_fee, tip, payer_exists);
            if payer_exists {
                *self.accounts.entry(*who).or_insert(0) += settlement.refund;
            }
            self.fee_unbalanced_amount += settlement.fee;
            self.tip_unbalanced_amount += settlement.tip;
        }
        Ok(())
    }
}

struct Runtime {
    base_weight: u64,
    byte_fee: u64,
    weight_to_fee: u64,
}

impl Config for Runtime {
    type OnChargeTransaction = Ledger;
    type FeeMultiplierUpdate = ();

    // The specification functions are never executed.

    fn spec_transaction_byte_fee(&self) -> u64 {
        unreachable!()
    }

    fn spec_weight_to_fee(&self, _weight: Weight) -> u64 {
        unreachable!()
    }

    fn spec_fee_multiplier_update(&self) {}

    fn spec_block_weights(&self) -> BlockWeights {
        unreachable!()
    }

    fn spec_block_length(&self) -> BlockLength {
        unreachable!()
    }

    fn transaction_byte_fee(&self) -> u64 {
        self.byte_fee
    }

    fn weight_to_fee(&self, weight: &Weight) -> u64 {
        self.weight_to_fee.saturating_mul(*weight)
    }

    fn fee_multiplier_update(&self) {}

    fn block_weights(&self) -> BlockWeights {
        let base_weight = self.base_weight;
        let weights = frame_system::limits::BlockWeights::builder()
            .base_block(0)
            .for_class(frame_support::weights::DispatchClass::all(), |weights| {
                weights.base_extrinsic = base_weight;
            })
            .for_class(frame_support::weights::DispatchClass::non_mandatory(), |weights| {
                weights.max_total = Some(1024);
            })
            .build_or_panic();
        let class = |class| {
            let limits = weights.get(class);
            WeightsPerClass {
                base_extrinsic: limits.base_extrinsic,
                max_total: limits.max_total,
            }
        };
        BlockWeights {
            max_block: weights.max_block,
            per_class: PerDispatchClass {
                normal: class(frame_support::weights::DispatchClass::Normal),
                operational: class(frame_support::weights::DispatchClass::Operational),
                mandatory: class(frame_support::weights::DispatchClass::Mandatory),
            },
        }
    }

    fn block_length(&self) -> BlockLength {
        let length = frame_system::limits::BlockLength::default();
        let class = |class| *length.max.get(class);
        BlockLength {
            max: PerDispatchClass {
                normal: class(frame_support::weights::DispatchClass::Normal),
                operational: class(frame_support::weights::DispatchClass::Operational),
                mandatory: class(frame_support::weights::DispatchClass::Mandatory),
            },
        }
    }
}

struct Ext {
    module: Module<Runtime>,
    balances: Ledger,
}

impl Ext {
    fn pre_dispatch(
        &mut self,
        tip: u64,
        who: u64,
        info: &DispatchInfo,
        len: usize,
    ) -> Result<Pre<Runtime>, TransactionValidityError> {
        ChargeTransactionPayment::<Runtime>::from(tip).pre_dispatch(
            &self.module,
            &mut self.balances,
            &who,
            &CALL,
            info,
            len,
        )
    }

    fn post_dispatch(
        &mut self,
        pre: Pre<Runtime>,
        info: &DispatchInfo,
        post_info: &PostDispatchInfo,
        len: usize,
    ) -> Result<(), TransactionValidityError> {
        ChargeTransactionPayment::<Runtime>::post_dispatch(
            &self.module,
            &mut self.balances,
            pre,
            info,
            post_info,
            len,
            &Ok::<(), ()>(()),
        )
    }
}

struct ExtBuilder {
    balance_factor: u64,
    base_weight: u64,
    byte_fee: u64,
    weight_to_fee: u64,
}

impl Default for ExtBuilder {
    fn default() -> Self {
        Self { balance_factor: 1, base_weight: 0, byte_fee: 1, weight_to_fee: 1 }
    }
}

impl ExtBuilder {
    fn base_weight(mut self, base_weight: u64) -> Self {
        self.base_weight = base_weight;
        self
    }

    fn byte_fee(mut self, byte_fee: u64) -> Self {
        self.byte_fee = byte_fee;
        self
    }

    fn weight_fee(mut self, weight_to_fee: u64) -> Self {
        self.weight_to_fee = weight_to_fee;
        self
    }

    fn balance_factor(mut self, factor: u64) -> Self {
        self.balance_factor = factor;
        self
    }

    fn build(self) -> Ext {
        let mut balances = Ledger::default();
        if self.balance_factor > 0 {
            for who in 1..=6 {
                balances.accounts.insert(who, 10 * who * self.balance_factor);
            }
        }
        let runtime = Runtime {
            base_weight: self.base_weight,
            byte_fee: self.byte_fee,
            weight_to_fee: self.weight_to_fee,
        };
        Ext { module: Module::new(runtime), balances }
    }
}

fn info_from_weight(weight: Weight) -> DispatchInfo {
    DispatchInfo { weight, class: DispatchClass::default(), pays_fee: Pays::default() }
}

fn post_info_from_weight(weight: Weight) -> PostDispatchInfo {
    PostDispatchInfo { actual_weight: Some(weight), pays_fee: Pays::default() }
}

fn post_info_from_pays(pays_fee: Pays) -> PostDispatchInfo {
    PostDispatchInfo { actual_weight: None, pays_fee }
}

fn default_post_info() -> PostDispatchInfo {
    PostDispatchInfo { actual_weight: None, pays_fee: Pays::default() }
}

#[test]
fn signed_extension_transaction_payment_work() {
    let mut ext = ExtBuilder::default().balance_factor(10).base_weight(5).build();
    let len = 10;
    let pre = ext.pre_dispatch(0, 1, &info_from_weight(5), len).unwrap();
    assert_eq!(ext.balances.free_balance(1), 100 - 5 - 5 - 10);

    assert!(ext.post_dispatch(pre, &info_from_weight(5), &default_post_info(), len).is_ok());
    assert_eq!(ext.balances.free_balance(1), 100 - 5 - 5 - 10);
    assert_eq!(ext.balances.fee_unbalanced_amount, 5 + 5 + 10);
    assert_eq!(ext.balances.tip_unbalanced_amount, 0);

    ext.balances.fee_unbalanced_amount = 0;

    let pre = ext.pre_dispatch(5 /* tipped */, 2, &info_from_weight(100), len).unwrap();
    assert_eq!(ext.balances.free_balance(2), 200 - 5 - 10 - 100 - 5);

    assert!(ext
        .post_dispatch(pre, &info_from_weight(100), &post_info_from_weight(50), len)
        .is_ok());
    assert_eq!(ext.balances.free_balance(2), 200 - 5 - 10 - 50 - 5);
    assert_eq!(ext.balances.fee_unbalanced_amount, 5 + 10 + 50);
    assert_eq!(ext.balances.tip_unbalanced_amount, 5);
}

#[test]
fn signed_extension_transaction_payment_multiplied_refund_works() {
    let mut ext = ExtBuilder::default().balance_factor(10).base_weight(5).build();
    let len = 10;
    ext.module.next_fee_multiplier = Multiplier::saturating_from_rational(3, 2);

    let pre = ext.pre_dispatch(5 /* tipped */, 2, &info_from_weight(100), len).unwrap();
    // 5 base fee, 10 byte fee, 3/2 * 100 weight fee, 5 tip
    assert_eq!(ext.balances.free_balance(2), 200 - 5 - 10 - 150 - 5);

    assert!(ext
        .post_dispatch(pre, &info_from_weight(100), &post_info_from_weight(50), len)
        .is_ok());
    // 75 (3/2 of the returned 50 units of weight) is refunded
    assert_eq!(ext.balances.free_balance(2), 200 - 5 - 10 - 75 - 5);
}

#[test]
fn signed_extension_transaction_payment_is_bounded() {
    let mut ext = ExtBuilder::default().balance_factor(1000).byte_fee(0).build();
    // maximum weight possible
    assert!(ext.pre_dispatch(0, 1, &info_from_weight(Weight::MAX), 10).is_ok());
    // fee will be proportional to what is the actual maximum weight in the runtime.
    assert_eq!(
        ext.balances.free_balance(1),
        10000 - ext.module.config.block_weights().max_block
    );
}

#[test]
fn signed_extension_allows_free_transactions() {
    let mut ext = ExtBuilder::default().base_weight(100).balance_factor(0).build();
    // 1 ain't have a penny.
    assert_eq!(ext.balances.free_balance(1), 0);

    let len = 100;

    // This is a completely free transaction.
    let operational_transaction =
        DispatchInfo { weight: 0, class: DispatchClass::Operational, pays_fee: Pays::No };
    assert!(ChargeTransactionPayment::<Runtime>::from(0)
        .validate(&ext.module, &mut ext.balances, &1, &CALL, &operational_transaction, len)
        .is_ok());

    // like a InsecureFreeNormal
    let free_transaction =
        DispatchInfo { weight: 0, class: DispatchClass::Normal, pays_fee: Pays::Yes };
    assert!(ChargeTransactionPayment::<Runtime>::from(0)
        .validate(&ext.module, &mut ext.balances, &1, &CALL, &free_transaction, len)
        .is_err());
}

#[test]
fn signed_ext_length_fee_is_also_updated_per_congestion() {
    let mut ext = ExtBuilder::default().base_weight(5).balance_factor(10).build();
    // all fees should be x1.5
    ext.module.next_fee_multiplier = Multiplier::saturating_from_rational(3, 2);
    let len = 10;

    assert!(ext.pre_dispatch(10 /* tipped */, 1, &info_from_weight(3), len).is_ok());
    assert_eq!(
        ext.balances.free_balance(1),
        100 // before
        - 10 // tip
        - 5 // base
        - 10 // len
        - (3 * 3 / 2) // adjusted weight
    );
}

#[test]
fn query_info_works() {
    // the second call of the second module: a transfer of 69 to account 2
    let call = (1u8, 0u8, 2u64, Compact(69u64));
    let origin = 111111;
    let extra = ();
    let xt = TestXt::new(call, Some((origin, extra)));
    let info = info_from_weight(198_268_000);
    let len = xt.encode().len() as u32;
    let mut ext = ExtBuilder::default().base_weight(5).weight_fee(2).build();
    // all fees should be x1.5
    ext.module.next_fee_multiplier = Multiplier::saturating_from_rational(3, 2);

    assert_eq!(
        ext.module.query_info(info, len),
        RuntimeDispatchInfo {
            weight: info.weight,
            class: info.class,
            partial_fee: 5 * 2 /* base * weight_fee */
                + len as u64  /* len * 1 */
                + info.weight.min(ext.module.config.block_weights().max_block) * 2 * 3 / 2, /* weight */
        },
    );
}

#[test]
fn compute_fee_works_without_multiplier() {
    let ext = ExtBuilder::default().base_weight(100).byte_fee(10).balance_factor(0).build();
    // Next fee multiplier is one
    assert_eq!(ext.module.next_fee_multiplier(), Multiplier::one());

    // Tip only, no fees works
    let dispatch_info =
        DispatchInfo { weight: 0, class: DispatchClass::Operational, pays_fee: Pays::No };
    assert_eq!(ext.module.compute_fee(0, &dispatch_info, 10), 10);
    // No tip, only base fee works
    let dispatch_info =
        DispatchInfo { weight: 0, class: DispatchClass::Operational, pays_fee: Pays::Yes };
    assert_eq!(ext.module.compute_fee(0, &dispatch_info, 0), 100);
    // Tip + base fee works
    assert_eq!(ext.module.compute_fee(0, &dispatch_info, 69), 169);
    // Len (byte fee) + base fee works
    assert_eq!(ext.module.compute_fee(42, &dispatch_info, 0), 520);
    // Weight fee + base fee works
    let dispatch_info =
        DispatchInfo { weight: 1000, class: DispatchClass::Operational, pays_fee: Pays::Yes };
    assert_eq!(ext.module.compute_fee(0, &dispatch_info, 0), 1100);
}

#[test]
fn compute_fee_works_with_multiplier() {
    let mut ext = ExtBuilder::default().base_weight(100).byte_fee(10).balance_factor(0).build();
    // Add a next fee multiplier. Fees will be x3/2.
    ext.module.next_fee_multiplier = Multiplier::saturating_from_rational(3, 2);
    // Base fee is unaffected by multiplier
    let dispatch_info =
        DispatchInfo { weight: 0, class: DispatchClass::Operational, pays_fee: Pays::Yes };
    assert_eq!(ext.module.compute_fee(0, &dispatch_info, 0), 100);

    // Everything works together :)
    let dispatch_info =
        DispatchInfo { weight: 123, class: DispatchClass::Operational, pays_fee: Pays::Yes };
    // 123 weight, 456 length, 100 base
    assert_eq!(
        ext.module.compute_fee(456, &dispatch_info, 789),
        100 + (3 * 123 / 2) + 4560 + 789,
    );
}

#[test]
fn compute_fee_works_with_negative_multiplier() {
    let mut ext = ExtBuilder::default().base_weight(100).byte_fee(10).balance_factor(0).build();
    // Add a next fee multiplier. All fees will be x1/2.
    ext.module.next_fee_multiplier = Multiplier::saturating_from_rational(1, 2);

    // Base fee is unaffected by multiplier.
    let dispatch_info =
        DispatchInfo { weight: 0, class: DispatchClass::Operational, pays_fee: Pays::Yes };
    assert_eq!(ext.module.compute_fee(0, &dispatch_info, 0), 100);

    // Everything works together.
    let dispatch_info =
        DispatchInfo { weight: 123, class: DispatchClass::Operational, pays_fee: Pays::Yes };
    // 123 weight, 456 length, 100 base
    assert_eq!(ext.module.compute_fee(456, &dispatch_info, 789), 100 + (123 / 2) + 4560 + 789,);
}

#[test]
fn compute_fee_does_not_overflow() {
    let ext = ExtBuilder::default().base_weight(100).byte_fee(10).balance_factor(0).build();
    // Overflow is handled
    let dispatch_info =
        DispatchInfo { weight: Weight::MAX, class: DispatchClass::Operational, pays_fee: Pays::Yes };
    assert_eq!(ext.module.compute_fee(u32::MAX, &dispatch_info, u64::MAX), u64::MAX);
}

#[test]
fn refund_does_not_recreate_account() {
    let mut ext = ExtBuilder::default().balance_factor(10).base_weight(5).build();
    let len = 10;
    let pre = ext.pre_dispatch(5 /* tipped */, 2, &info_from_weight(100), len).unwrap();
    assert_eq!(ext.balances.free_balance(2), 200 - 5 - 10 - 100 - 5);

    // kill the account between pre and post dispatch
    let free = ext.balances.free_balance(2);
    assert!(ext.balances.transfer(2, 3, free).is_ok());
    assert_eq!(ext.balances.free_balance(2), 0);

    assert!(ext
        .post_dispatch(pre, &info_from_weight(100), &post_info_from_weight(50), len)
        .is_ok());
    assert_eq!(ext.balances.free_balance(2), 0);
    // Transfer Event
    assert!(ext.balances.events.iter().any(|event| *event == LedgerEvent::Transfer(2, 3, 80)));
    // Killed Event
    assert!(ext.balances.events.iter().any(|event| *event == LedgerEvent::KilledAccount(2)));
}

#[test]
fn actual_weight_higher_than_max_refunds_nothing() {
    let mut ext = ExtBuilder::default().balance_factor(10).base_weight(5).build();
    let len = 10;
    let pre = ext.pre_dispatch(5 /* tipped */, 2, &info_from_weight(100), len).unwrap();
    assert_eq!(ext.balances.free_balance(2), 200 - 5 - 10 - 100 - 5);

    assert!(ext
        .post_dispatch(pre, &info_from_weight(100), &post_info_from_weight(101), len)
        .is_ok());
    assert_eq!(ext.balances.free_balance(2), 200 - 5 - 10 - 100 - 5);
}

#[test]
fn zero_transfer_on_free_transaction() {
    let mut ext = ExtBuilder::default().balance_factor(10).base_weight(5).build();
    let len = 10;
    let dispatch_info =
        DispatchInfo { weight: 100, pays_fee: Pays::No, class: DispatchClass::Normal };
    let user = 69;
    let before = ext.balances.clone();
    let pre = ext.pre_dispatch(0, user, &dispatch_info, len).unwrap();
    assert_eq!(ext.balances.free_balance(user), 0);
    assert!(ext.post_dispatch(pre, &dispatch_info, &default_post_info(), len).is_ok());
    assert_eq!(ext.balances.free_balance(user), 0);
    // No events for such a scenario
    assert_eq!(ext.balances.events.len(), 0);
    assert_eq!(ext.balances, before);
}

#[test]
fn refund_consistent_with_actual_weight() {
    let mut ext = ExtBuilder::default().balance_factor(10).base_weight(7).build();
    let info = info_from_weight(100);
    let post_info = post_info_from_weight(33);
    let prev_balance = ext.balances.free_balance(2);
    let len = 10;
    let tip = 5;

    ext.module.next_fee_multiplier = Multiplier::saturating_from_rational(5, 4);

    let pre = ext.pre_dispatch(tip, 2, &info, len).unwrap();
    ext.post_dispatch(pre, &info, &post_info, len).unwrap();

    let refund_based_fee = prev_balance - ext.balances.free_balance(2);
    let actual_fee = ext.module.compute_actual_fee(len as u32, &info, &post_info, tip);

    // 33 weight, 10 length, 7 base, 5 tip
    assert_eq!(actual_fee, 7 + 10 + (33 * 5 / 4) + 5);
    assert_eq!(refund_based_fee, actual_fee);
}

#[test]
fn post_info_can_change_pays_fee() {
    let mut ext = ExtBuilder::default().balance_factor(10).base_weight(7).build();
    let info = info_from_weight(100);
    let post_info = post_info_from_pays(Pays::No);
    let prev_balance = ext.balances.free_balance(2);
    let len = 10;
    let tip = 5;

    ext.module.next_fee_multiplier = Multiplier::saturating_from_rational(5, 4);

    let pre = ext.pre_dispatch(tip, 2, &info, len).unwrap();
    ext.post_dispatch(pre, &info, &post_info, len).unwrap();

    let refund_based_fee = prev_balance - ext.balances.free_balance(2);
    let actual_fee = ext.module.compute_actual_fee(len as u32, &info, &post_info, tip);

    // Only 5 tip is paid
    assert_eq!(actual_fee, 5);
    assert_eq!(refund_based_fee, actual_fee);
}

#[test]
fn genesis_has_a_multiplier_of_one() {
    let ext = ExtBuilder::default().build();
    assert_eq!(ext.module.next_fee_multiplier, FixedU128::from_inner(1_000_000_000_000_000_000));
    assert_eq!(ext.module.storage_version, Releases::V2);
    assert_eq!(Releases::default(), Releases::V1Ancient);
}

#[test]
fn fee_details_show_each_part() {
    let mut ext = ExtBuilder::default().base_weight(100).byte_fee(10).weight_fee(3).build();
    ext.module.next_fee_multiplier = Multiplier::saturating_from_rational(3, 2);
    let info = info_from_weight(123);
    let parts = Some(InclusionFee {
        base_fee: 300,
        len_fee: 4560,
        // 369 * 3 / 2, rounded down
        adjusted_weight_fee: 553,
    });
    assert_eq!(
        ext.module.compute_fee_details(456, &info, 789),
        FeeDetails { inclusion_fee: parts, tip: 789 }
    );
    assert_eq!(
        ext.module.query_fee_details(info, 456),
        FeeDetails { inclusion_fee: parts, tip: 0 }
    );
    assert_eq!(
        ext.module.compute_actual_fee_details(456, &info, &post_info_from_weight(23), 789),
        FeeDetails {
            inclusion_fee: Some(InclusionFee {
                base_fee: 300,
                len_fee: 4560,
                adjusted_weight_fee: 103,
            }),
            tip: 789,
        }
    );
    let free = DispatchInfo { pays_fee: Pays::No, ..info };
    assert_eq!(
        ext.module.compute_fee_details(456, &free, 789),
        FeeDetails { inclusion_fee: None, tip: 789 }
    );
    assert_eq!(parts.unwrap().inclusion_fee(), 300 + 4560 + 553);
}

#[test]
fn weight_converts_to_the_adjusted_fee() {
    let mut ext = ExtBuilder::default().weight_fee(2).build();
    assert_eq!(ext.module.convert(100), 200);
    ext.module.next_fee_multiplier = Multiplier::saturating_from_rational(5, 4);
    assert_eq!(ext.module.convert(33), 82);
    assert_eq!(ext.module.convert(Weight::MAX), 2 * 1024 * 5 / 4);
}

#[test]
fn priority_is_the_fee_times_the_share_of_a_block() {
    let ext = ExtBuilder::default().build();
    let max_len = ext.module.config.block_length().max.normal as usize;
    let priority = |len, weight, fee| {
        ChargeTransactionPayment::<Runtime>::get_priority(
            &ext.module,
            len,
            &info_from_weight(weight),
            fee,
        )
    };
    // a quarter of the length and half of the weight
    assert_eq!(priority(max_len / 4, 512, 10), 20);
    // a quarter of the length and all of the weight
    assert_eq!(priority(max_len / 4, 1024, 10), 10);
    // half of the length and a quarter of the weight
    assert_eq!(priority(max_len / 2, 256, 10), 20);
    // nothing at all
    assert_eq!(priority(0, 0, 10), 10240);
    // more than a block
    assert_eq!(priority(10, 2048, 10), 0);
    assert_eq!(priority(0, 0, u64::MAX), u64::MAX);
}

#[test]
fn valid_transaction_carries_its_priority() {
    let mut ext = ExtBuilder::default().balance_factor(1000).build();
    let valid = ChargeTransactionPayment::<Runtime>::from(7)
        .validate(&ext.module, &mut ext.balances, &1, &CALL, &info_from_weight(512), 10)
        .unwrap();
    assert_eq!(valid.priority, 2 * (512 + 10 + 7));
    assert!(valid.required_tags.is_empty());
    assert!(valid.provided_tags.is_empty());
    assert_eq!(valid.longevity, u64::MAX);
    assert!(valid.propagate);
    assert_eq!(ext.balances.free_balance(1), 10000 - (512 + 10 + 7));
}

#[test]
fn payment_error_is_handed_on() {
    let mut ext = ExtBuilder::default().balance_factor(0).build();
    let error = ext.pre_dispatch(1, 1, &info_from_weight(5), 10).err().unwrap();
    assert_eq!(error, TransactionValidityError::Invalid(InvalidTransaction::Payment));
    assert_eq!(ext.balances, Ledger::default());
    let charge = ChargeTransactionPayment::<Runtime>::from(1);
    assert!(charge.additional_signed().is_ok());
    assert_eq!(
        ChargeTransactionPayment::<Runtime>::validity(
            &ext.module,
            &info_from_weight(5),
            10,
            16,
            Err(InvalidTransaction::Payment.into()),
        ),
        Err(TransactionValidityError::Invalid(InvalidTransaction::Payment))
    );
}

#[test]
fn length_is_counted_in_32_bits() {
    let mut ext = ExtBuilder::default().balance_factor(1).build();
    // the length fee is that of three bytes
    let len = 0x1_0000_0003usize;
    assert!(ext.pre_dispatch(0, 1, &info_from_weight(0), len).is_ok());
    assert_eq!(ext.balances.free_balance(1), 10 - 3);
}

#[test]
fn settlement_divides_what_was_paid() {
    assert_eq!(CurrencyAdapter::withdrawal(0u64), None);
    assert_eq!(CurrencyAdapter::withdrawal(3u64), Some(3));
    assert_eq!(CurrencyAdapter::refund(120u64, 70), 50);
    assert_eq!(CurrencyAdapter::refund(70u64, 120), 0);
    assert_eq!(
        CurrencyAdapter::settle(120u64, 70, 5, true),
        Settlement { refund: 50, fee: 65, tip: 5 }
    );
    assert_eq!(
        CurrencyAdapter::settle(120u64, 70, 5, false),
        Settlement { refund: 0, fee: 115, tip: 5 }
    );
    assert_eq!(
        CurrencyAdapter::settle(3u64, 70, 5, true),
        Settlement { refund: 0, fee: 0, tip: 3 }
    );
}

#[test]
fn charge_shows_its_tip() {
    let text = |tip| ChargeTransactionPayment::<Runtime>::from(tip).debug_text();
    assert_eq!(text(0), "ChargeTransactionPayment<0>");
    assert_eq!(text(69), "ChargeTransactionPayment<69>");
    assert_eq!(text(100), "ChargeTransactionPayment<100>");
    assert_eq!(text(u64::MAX), "ChargeTransactionPayment<18446744073709551615>");
}

#[test]
fn weight_fee_is_capped_and_unadjusted() {
    let mut ext = ExtBuilder::default().weight_fee(3).build();
    ext.module.next_fee_multiplier = Multiplier::saturating_from_rational(3, 2);
    let max_block = ext.module.config.block_weights().max_block;
    assert_eq!(ext.module.weight_to_fee(7), 21);
    assert_eq!(ext.module.weight_to_fee(max_block), 3 * max_block);
    assert_eq!(ext.module.weight_to_fee(Weight::MAX), 3 * max_block);
}

#[test]
fn higher_multiplier_and_tip_change_their_parts_alone() {
    let mut ext = ExtBuilder::default().base_weight(5).byte_fee(2).build();
    let fee = |module: &Module<Runtime>, tip| {
        module.compute_fee_raw(10, 7, tip, Pays::Yes, DispatchClass::Normal)
    };
    let inclusion_fee =
        |adjusted_weight_fee| Some(InclusionFee { base_fee: 5, len_fee: 20, adjusted_weight_fee });
    assert_eq!(fee(&ext.module, 0).inclusion_fee, inclusion_fee(7));
    assert_eq!(fee(&ext.module, 9), FeeDetails { inclusion_fee: inclusion_fee(7), tip: 9 });
    ext.module.next_fee_multiplier = Multiplier::saturating_from_rational(3, 2);
    assert_eq!(fee(&ext.module, 9), FeeDetails { inclusion_fee: inclusion_fee(10), tip: 9 });
}
