//! Weights of transactions and the limits on what a block may hold.

use vstd::prelude::*;

verus! {

/// The cost of executing a transaction.
pub type Weight = u64;

/// The rank of a transaction in the transaction queue.
pub type TransactionPriority = u64;

/// A group of transactions that share limits.
#[derive(Clone, Copy, PartialEq, Eq, Debug, Structural)]
pub enum DispatchClass {
    Normal,
    Operational,
    Mandatory,
}

impl Default for DispatchClass {
    fn default() -> (r: Self)
        ensures
            r == DispatchClass::Normal,
    {
        DispatchClass::Normal
    }
}

/// Whether a transaction pays a fee.
#[derive(Clone, Copy, PartialEq, Eq, Debug, Structural)]
pub enum Pays {
    /// The transactor pays the fee.
    Yes,
    /// The transactor does not pay the fee.
    No,
}

impl Default for Pays {
    fn default() -> (r: Self)
        ensures
            r == Pays::Yes,
    {
        Pays::Yes
    }
}

/// What is known of a transaction before it is executed.
#[derive(Clone, Copy, PartialEq, Eq, Debug, Structural)]
pub struct DispatchInfo {
    /// The largest weight that the transaction can have.
    pub weight: Weight,
    /// The class of the transaction.
    pub class: DispatchClass,
    /// Whether the transaction pays a fee.
    pub pays_fee: Pays,
}

/// What is known of a transaction once it was executed.
#[derive(Clone, Copy, PartialEq, Eq, Debug)]
pub struct PostDispatchInfo {
    /// The weight that the transaction had, where that is known.
    pub actual_weight: Option<Weight>,
    /// Whether the transaction pays a fee.
    pub pays_fee: Pays,
}

impl PostDispatchInfo {
    /// The weight to charge for: the actual weight where it is known and lower than the weight
    /// that was announced, and the announced weight otherwise.
    pub open spec fn charged_weight(self, info: DispatchInfo) -> Weight {
        match self.actual_weight {
            Some(actual) if actual < info.weight => actual,
            _ => info.weight,
        }
    }

    /// Whether the fee is due: it is where neither record waives it.
    pub open spec fn fee_due(self, info: DispatchInfo) -> Pays {
        if info.pays_fee == Pays::Yes && self.pays_fee == Pays::Yes {
            Pays::Yes
        } else {
            Pays::No
        }
    }

    /// The weight to charge for.
    pub fn calc_actual_weight(&self, info: &DispatchInfo) -> (r: Weight)
        ensures
            r == self.charged_weight(*info),
    {
        match self.actual_weight {
            Some(actual) => if actual < info.weight {
                actual
            } else {
                info.weight
            },
            None => info.weight,
        }
    }

    /// Whether the fee is due.
    pub fn pays_fee(&self, info: &DispatchInfo) -> (r: Pays)
        ensures
            r == self.fee_due(*info),
    {
        if info.pays_fee == Pays::No || self.pays_fee == Pays::No {
            Pays::No
        } else {
            Pays::Yes
        }
    }
}

/// One value for each class.
#[derive(Clone, Copy, PartialEq, Eq, Debug)]
pub struct PerDispatchClass<T> {
    pub normal: T,
    pub operational: T,
    pub mandatory: T,
}

impl<T> PerDispatchClass<T> {
    /// The value of a class.
    pub open spec fn of(self, class: DispatchClass) -> T {
        match class {
            DispatchClass::Normal => self.normal,
            DispatchClass::Operational => self.operational,
            DispatchClass::Mandatory => self.mandatory,
        }
    }

    /// The value of a class.
    pub fn get(&self, class: DispatchClass) -> (r: &T)
        ensures
            *r == self.of(class),
    {
        match class {
            DispatchClass::Normal => &self.normal,
            DispatchClass::Operational => &self.operational,
            DispatchClass::Mandatory => &self.mandatory,
        }
    }
}

/// The weight limits of one class.
#[derive(Clone, Copy, PartialEq, Eq, Debug)]
pub struct WeightsPerClass {
    /// The weight of executing a transaction that does nothing.
    pub base_extrinsic: Weight,
    /// The weight that all transactions of the class may have in one block, where it is limited.
    pub max_total: Option<Weight>,
}

/// The weight limits of a block.
#[derive(Clone, Copy, PartialEq, Eq, Debug)]
pub struct BlockWeights {
    /// The weight that a block may have.
    pub max_block: Weight,
    /// The limits of each class.
    pub per_class: PerDispatchClass<WeightsPerClass>,
}

impl BlockWeights {
    /// The weight that the normal transactions of a block may have.
    pub open spec fn normal_capacity(self) -> Weight {
        match self.per_class.normal.max_total {
            Some(max_total) => max_total,
            None => self.max_block,
        }
    }

    /// The limits of a class.
    pub fn get(&self, class: DispatchClass) -> (r: &WeightsPerClass)
        ensures
            *r == self.per_class.of(class),
    {
        self.per_class.get(class)
    }
}

/// The length limits of a block, in bytes.
#[derive(Clone, Copy, PartialEq, Eq, Debug)]
pub struct BlockLength {
    /// The length that the transactions of each class may have in one block.
    pub max: PerDispatchClass<u32>,
}

/// The weight that the transactions of each class have in a block.
pub type ConsumedWeight = PerDispatchClass<Weight>;

} // verus!
