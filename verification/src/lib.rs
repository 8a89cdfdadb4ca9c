//! Verified state models of the StellarGov governance contracts: a voting
//! token, a governor, a timelock and a treasury.
//!
//! Each contract is modelled as the contents of its storage, and each entry
//! point as a transition of that model with an exact contract. The host
//! environment (storage access, authorisation, ledger sequence, events) is
//! left to the caller, which hands the library plain values.
pub mod account;
pub mod checkpoint;

pub mod voting_token;
pub mod governor;
pub mod timelock;
pub mod treasury;
