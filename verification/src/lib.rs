//! Verified logic of two runtime modules: the payment of transaction fees and the
//! registry of certificates that organizations issue.

pub mod balance;
pub mod certificate;
pub mod fixed;
pub mod text;
pub mod transaction_payment;
pub mod weights;
