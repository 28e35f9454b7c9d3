//! An escrow service mediating a two-party payment: a client deposits funds,
//! a freelancer performs work and signals delivery, and the client releases
//! the funds, with a third-party arbiter able to resolve disagreements.
//!
//! The service keeps every escrow entity in a keyed store and moves balances
//! through a token ledger, both passed in by the caller, so the whole
//! lifecycle - creation, funding, delivery, release, dispute, resolution -
//! is checked here down to the exact balance movements.

pub mod laws;
pub mod ledger;
pub mod service;
pub mod types;
