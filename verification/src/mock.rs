//! A minimal runtime for exercising the registry: fresh genesis state and
//! deterministic test accounts.

use vstd::prelude::*;

use crate::ledger::{Hold, Ledger};
use crate::pallet::{Event, Pallet, ProofMeta};
use crate::system::System;
use crate::AccountId;

verus! {

/// The test runtime: a namespace for what a runtime would provide.
pub struct Test;

impl Test {
    /// A deterministic account identity derived from a small seed, so that
    /// tests can name distinct accounts without an identity provider.
    pub fn create_user_account(seed: u32) -> (r: AccountId)
        ensures
            r == seed as AccountId,
    {
        seed as AccountId
    }
}

/// The state an operation runs against: clock and event sink, balance
/// ledger, and the registry itself.
pub struct TestExternalities {
    pub system: System,
    pub ledger: Ledger,
    pub pallet: Pallet,
}

/// Externalities at genesis: height zero, no events, no balances, no holds,
/// nothing whitelisted, nothing stored.
pub fn new_test_ext() -> (r: TestExternalities)
    ensures
        r.pallet.wf(),
        r.system.spec_block_number() == 0,
        r.system.spec_events() =~= Seq::<Event>::empty(),
        r.ledger.spec_holds() =~= Seq::<Hold>::empty(),
        forall|a: AccountId| r.ledger.spec_reducible(a) == 0,
        forall|a: AccountId| !r.pallet.spec_whitelisted(a),
        r.pallet.spec_proofs() =~= Map::<Seq<u8>, ProofMeta>::empty(),
{
    TestExternalities { system: System::new(), ledger: Ledger::new(), pallet: Pallet::new() }
}

} // verus!
