//! A permissioned proof registry.
//!
//! Pre-approved entities publish short, fixed-format attestations ("proofs")
//! into a shared ledger. Entry into the set of approved entities is gated by
//! an economic bond placed under hold with the balance ledger. Each proof is
//! stored under its exact byte content, tagged with its issuer and an
//! advisory expiry height.
//!
//! The crate is organised leaves first: the balance [`ledger`] and the block
//! counter and event sink in [`system`] are the collaborators the registry
//! depends on; [`pallet`] holds the registry and the proof store themselves;
//! [`mock`] wires a fresh runtime together for exercising the whole.

use vstd::prelude::*;

pub mod ledger;
pub mod mock;
pub mod pallet;
pub mod system;

verus! {

/// Account identifier, supplied by the environment's authentication layer.
pub type AccountId = u64;

/// Denomination of the balance ledger.
pub type Balance = u128;

/// Chain height. Kept wide so that expiry arithmetic stays far from overflow
/// at realistic heights.
pub type BlockNumber = u128;

} // verus!
