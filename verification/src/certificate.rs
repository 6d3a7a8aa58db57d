//! A registry of certificates. The admin of an organization creates certificates in its name and
//! issues them to recipients.

pub mod bytes;
pub mod identifier;
pub mod laws;
pub mod pallet;
pub mod storage;
