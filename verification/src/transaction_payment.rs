//! Payment of the minimum that a transaction costs to be put into a block.
//!
//! The _inclusion fee_ is the sum of a _base fee_, a _length fee_ in proportion to the encoded
//! length, and a _weight fee_ in proportion to the weight, which a multiplier adjusts to the
//! congestion of the network. The final fee adds the _tip_:
//!
//! ```text
//! inclusion_fee = base_fee + length_fee + targeted_fee_adjustment * weight_fee
//! final_fee = inclusion_fee + tip
//! ```
//!
//! All sums and products saturate at the limit of the balance type.

pub mod adjustment;
pub mod charge;
pub mod laws;
pub mod module;
pub mod payment;
pub mod types;
