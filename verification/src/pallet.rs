//! The proof registry itself: a whitelist of bonded entities and a
//! content-addressed store of proofs.
//!
//! An account first registers, which places a bond of [`MIN_BOND`] under
//! hold with the ledger and whitelists the account. A whitelisted account
//! may then store proofs: opaque byte blobs of at most [`MAX_PROOF_LEN`]
//! bytes, each stored at most once — the exact byte content is the key —
//! together with its issuer and an advisory expiry height.

use vstd::prelude::*;

use crate::ledger::{Hold, Ledger};
use crate::system::System;
use crate::{AccountId, Balance, BlockNumber};

verus! {

/// The bond placed under hold when an entity registers.
pub const MIN_BOND: Balance = 1_000_000_000;

/// The longest proof the store accepts, in bytes.
pub const MAX_PROOF_LEN: usize = 512;

/// Why the registry asks the ledger to hold funds.
#[derive(Clone, Copy, Debug, PartialEq, Eq, Structural)]
pub enum HoldReason {
    /// Funds are held for registration as a whitelisted entity.
    WhitelistEntity,
}

/// Failures of the two registry operations.
#[derive(Clone, Copy, Debug, PartialEq, Eq, Structural)]
pub enum Error {
    /// The same proof bytes were stored before.
    ProofAlreadyExist,
    /// The caller's reducible balance does not cover the bond.
    NotEnoughFund,
    /// The caller is not a whitelisted entity.
    NotWhitelistEntity,
}

/// Failures of the dispatchable call surface.
#[derive(Clone, Copy, Debug, PartialEq, Eq, Structural)]
pub enum DispatchError {
    /// The call was not signed.
    BadOrigin,
    /// The registry itself rejected the call.
    Module(Error),
}

/// Where a call came from; only signed calls carry a caller identity.
#[derive(Clone, Copy, Debug, PartialEq, Eq, Structural)]
pub enum Origin {
    Root,
    Signed(AccountId),
    Unsigned,
}

/// Proof content: an opaque byte blob of at most [`MAX_PROOF_LEN`] bytes,
/// bounded at construction.
#[derive(Debug)]
pub struct ProofBytes {
    bytes: Vec<u8>,
}

impl View for ProofBytes {
    type V = Seq<u8>;

    closed spec fn view(&self) -> Seq<u8> {
        self.bytes@
    }
}

impl ProofBytes {
    /// The content respects the length bound.
    pub open spec fn wf(self) -> bool {
        self@.len() <= MAX_PROOF_LEN
    }

    /// Accepts the bytes as proof content if they fit the bound.
    pub fn try_new(bytes: Vec<u8>) -> (r: Option<ProofBytes>)
        ensures
            bytes@.len() <= MAX_PROOF_LEN ==> (r matches Some(p) && p@ == bytes@ && p.wf()),
            bytes@.len() > MAX_PROOF_LEN ==> r is None,
    {
        if bytes.len() <= MAX_PROOF_LEN {
            Some(ProofBytes { bytes })
        } else {
            None
        }
    }

    pub fn len(&self) -> (r: usize)
        ensures
            r == self@.len(),
    {
        self.bytes.len()
    }

    pub fn as_bytes(&self) -> (r: &Vec<u8>)
        ensures
            r@ == self@,
    {
        &self.bytes
    }
}

impl Clone for ProofBytes {
    fn clone(&self) -> (r: Self)
        ensures
            r@ == self@,
    {
        let bytes = self.bytes.clone();
        proof {
            assert(bytes@ =~= self.bytes@);
        }
        ProofBytes { bytes }
    }
}

/// Metadata recorded for a stored proof.
#[derive(Clone, Copy, Debug, PartialEq, Eq, Structural)]
pub struct ProofMeta {
    /// Whoever stored the proof, copied at insertion time.
    pub issuer: AccountId,
    /// Absolute height after which the proof is considered stale. Advisory
    /// only: nothing in the registry enforces it.
    pub expiry_block: BlockNumber,
}

/// Notifications the registry emits, in call order.
#[derive(Debug)]
pub enum Event {
    /// A proof was stored.
    ProofStored { proof_bytes: ProofBytes, issuer: AccountId, expiry_block: BlockNumber },
    /// An account registered as a whitelisted entity.
    WhitelistEntityRegistered { entity: AccountId },
}

/// Byte-for-byte comparison of two buffers.
fn vec_u8_eq(a: &Vec<u8>, b: &Vec<u8>) -> (r: bool)
    ensures
        r == (a@ == b@),
{
    if a.len() != b.len() {
        return false;
    }
    let mut i: usize = 0;
    while i < a.len()
        invariant
            i <= a.len(),
            a@.len() == b@.len(),
            forall|j: int| 0 <= j < i ==> a@[j] == b@[j],
        decreases a.len() - i,
    {
        if a[i] != b[i] {
            return false;
        }
        i = i + 1;
    }
    proof {
        assert(a@ =~= b@);
    }
    true
}

proof fn lemma_contains_push(s: Seq<AccountId>, e: AccountId, x: AccountId)
    ensures
        s.push(e).contains(x) <==> (s.contains(x) || x == e),
{
    if s.push(e).contains(x) {
        let i = choose|i: int| 0 <= i < s.push(e).len() && s.push(e)[i] == x;
        if i < s.len() {
            assert(s[i] == x);
        }
    }
    if s.contains(x) {
        let i = choose|i: int| 0 <= i < s.len() && s[i] == x;
        assert(s.push(e)[i] == x);
    }
    if x == e {
        assert(s.push(e)[s.len() as int] == x);
    }
}

/// The set of whitelisted entities.
///
/// The environment's storage keeps this as a map from account to a flag, in
/// which an explicit `false` means the same as absence; only `true` is ever
/// written, so the set of accounts present with a `true` flag is the whole
/// content, and that set is what is held here.
pub struct WhitelistEntity {
    members: Vec<AccountId>,
}

impl WhitelistEntity {
    pub closed spec fn spec_contains(self, who: AccountId) -> bool {
        self.members@.contains(who)
    }

    pub fn new() -> (r: WhitelistEntity)
        ensures
            forall|a: AccountId| !r.spec_contains(a),
    {
        WhitelistEntity { members: Vec::new() }
    }

    pub fn contains(&self, who: AccountId) -> (r: bool)
        ensures
            r == self.spec_contains(who),
    {
        let mut i: usize = 0;
        while i < self.members.len()
            invariant
                i <= self.members.len(),
                forall|j: int| 0 <= j < i ==> self.members@[j] != who,
            decreases self.members.len() - i,
        {
            if self.members[i] == who {
                return true;
            }
            i = i + 1;
        }
        false
    }

    /// Mark `who` as whitelisted; marking twice changes nothing.
    pub fn insert(&mut self, who: AccountId)
        ensures
            final(self).spec_contains(who),
            forall|a: AccountId|
                a != who ==> final(self).spec_contains(a) == old(self).spec_contains(a),
    {
        if !self.contains(who) {
            self.members.push(who);
            proof {
                assert forall|a: AccountId| final(self).spec_contains(a)
                    == (old(self).spec_contains(a) || a == who) by {
                    lemma_contains_push(old(self).members@, who, a);
                }
            }
        }
    }
}

/// The content-addressed proof store: metadata keyed by the exact proof
/// bytes. Its central invariant is that no two entries share a key.
pub struct IssuanceProof {
    entries: Vec<(ProofBytes, ProofMeta)>,
}

impl IssuanceProof {
    /// The stored content as a map from proof bytes to metadata.
    pub closed spec fn spec_map(self) -> Map<Seq<u8>, ProofMeta> {
        Self::map_of(self.entries@)
    }

    spec fn map_of(entries: Seq<(ProofBytes, ProofMeta)>) -> Map<Seq<u8>, ProofMeta>
        decreases entries.len(),
    {
        if entries.len() == 0 {
            Map::empty()
        } else {
            Self::map_of(entries.drop_last()).insert(entries.last().0@, entries.last().1)
        }
    }

    /// No two entries share a key, and every key respects the length bound.
    pub closed spec fn wf(self) -> bool {
        &&& forall|i: int, j: int|
            #![trigger self.entries@[i], self.entries@[j]]
            0 <= i < j < self.entries@.len() ==> self.entries@[i].0@ != self.entries@[j].0@
        &&& forall|i: int| 0 <= i < self.entries@.len() ==> (#[trigger] self.entries@[i]).0.wf()
    }

    proof fn lemma_map_of_contains(entries: Seq<(ProofBytes, ProofMeta)>, k: Seq<u8>)
        ensures
            Self::map_of(entries).contains_key(k) <==> exists|i: int|
                0 <= i < entries.len() && entries[i].0@ == k,
        decreases entries.len(),
    {
        if entries.len() > 0 {
            Self::lemma_map_of_contains(entries.drop_last(), k);
            if entries.last().0@ == k {
                assert(entries[entries.len() - 1].0@ == k);
            } else {
                if exists|i: int| 0 <= i < entries.len() && entries[i].0@ == k {
                    let i = choose|i: int| 0 <= i < entries.len() && entries[i].0@ == k;
                    assert(entries.drop_last()[i].0@ == k);
                }
                if exists|i: int|
                    0 <= i < entries.drop_last().len() && entries.drop_last()[i].0@ == k {
                    let i = choose|i: int|
                        0 <= i < entries.drop_last().len() && entries.drop_last()[i].0@ == k;
                    assert(entries[i].0@ == k);
                }
            }
        }
    }

    proof fn lemma_map_of_get(entries: Seq<(ProofBytes, ProofMeta)>, k: Seq<u8>, i: int)
        requires
            0 <= i < entries.len(),
            entries[i].0@ == k,
            forall|j: int| i < j < entries.len() ==> entries[j].0@ != k,
        ensures
            Self::map_of(entries).contains_key(k),
            Self::map_of(entries)[k] == entries[i].1,
        decreases entries.len(),
    {
        if i == entries.len() - 1 {
            assert(entries.last() == entries[i]);
        } else {
            assert(entries.last().0@ != k);
            assert(entries.drop_last()[i].0@ == k);
            Self::lemma_map_of_get(entries.drop_last(), k, i);
        }
    }

    pub fn new() -> (r: IssuanceProof)
        ensures
            r.wf(),
            r.spec_map() =~= Map::<Seq<u8>, ProofMeta>::empty(),
    {
        IssuanceProof { entries: Vec::new() }
    }

    pub fn contains_key(&self, key: &ProofBytes) -> (r: bool)
        ensures
            r == self.spec_map().contains_key(key@),
    {
        let mut i: usize = 0;
        while i < self.entries.len()
            invariant
                i <= self.entries.len(),
                forall|j: int| 0 <= j < i ==> self.entries@[j].0@ != key@,
            decreases self.entries.len() - i,
        {
            if vec_u8_eq(&self.entries[i].0.bytes, &key.bytes) {
                proof {
                    assert(self.entries@[i as int].0@ == key@);
                    Self::lemma_map_of_contains(self.entries@, key@);
                }
                return true;
            }
            i = i + 1;
        }
        proof {
            Self::lemma_map_of_contains(self.entries@, key@);
        }
        false
    }

    pub fn get(&self, key: &ProofBytes) -> (r: Option<ProofMeta>)
        requires
            self.wf(),
        ensures
            r == if self.spec_map().contains_key(key@) {
                Some(self.spec_map()[key@])
            } else {
                None::<ProofMeta>
            },
    {
        let mut i: usize = 0;
        while i < self.entries.len()
            invariant
                self.wf(),
                i <= self.entries.len(),
                forall|j: int| 0 <= j < i ==> self.entries@[j].0@ != key@,
            decreases self.entries.len() - i,
    {
            if vec_u8_eq(&self.entries[i].0.bytes, &key.bytes) {
                proof {
                    assert(self.entries@[i as int].0@ == key@);
                    assert forall|j: int| i < j < self.entries@.len() implies self.entries@[j].0@
                        != key@ by {
                        assert(self.entries@[i as int].0@ != self.entries@[j].0@);
                    }
                    Self::lemma_map_of_get(self.entries@, key@, i as int);
                }
                return Some(self.entries[i].1);
            }
            i = i + 1;
        }
        proof {
            Self::lemma_map_of_contains(self.entries@, key@);
        }
        None
    }

    /// Record `value` under the unseen key `key`.
    pub fn insert(&mut self, key: ProofBytes, value: ProofMeta)
        requires
            old(self).wf(),
            key.wf(),
            !old(self).spec_map().contains_key(key@),
        ensures
            final(self).wf(),
            final(self).spec_map() == old(self).spec_map().insert(key@, value),
    {
        proof {
            Self::lemma_map_of_contains(old(self).entries@, key@);
        }
        self.entries.push((key, value));
        proof {
            assert(self.entries@.drop_last() =~= old(self).entries@);
            assert(self.entries@.last() == (key, value));
            assert forall|i: int, j: int|
                #![trigger self.entries@[i], self.entries@[j]]
                0 <= i < j < self.entries@.len() implies self.entries@[i].0@
                != self.entries@[j].0@ by {
                if j < self.entries@.len() - 1 {
                    assert(old(self).entries@[i] == self.entries@[i]);
                    assert(old(self).entries@[j] == self.entries@[j]);
                } else {
                    assert(self.entries@[i] == old(self).entries@[i]);
                }
            }
        }
    }
}

/// The registry: who may publish, and what has been published.
pub struct Pallet {
    whitelist: WhitelistEntity,
    proofs: IssuanceProof,
}

impl Pallet {
    /// The store's invariant holds.
    pub closed spec fn wf(self) -> bool {
        self.proofs.wf()
    }

    /// Is `who` authorized to publish proofs?
    pub closed spec fn spec_whitelisted(self, who: AccountId) -> bool {
        self.whitelist.spec_contains(who)
    }

    /// Everything stored so far, keyed by exact proof bytes.
    pub closed spec fn spec_proofs(self) -> Map<Seq<u8>, ProofMeta> {
        self.proofs.spec_map()
    }

    /// The verdict `register_entity` reaches against a given ledger.
    pub open spec fn register_outcome(ledger: Ledger, issuer: AccountId) -> Result<(), Error> {
        if ledger.spec_reducible(issuer) >= MIN_BOND {
            Ok(())
        } else {
            Err(Error::NotEnoughFund)
        }
    }

    /// The verdict `store_proof` reaches: duplicate detection first, then
    /// authorization.
    pub open spec fn store_outcome(self, issuer: AccountId, key: Seq<u8>) -> Result<(), Error> {
        if self.spec_proofs().contains_key(key) {
            Err(Error::ProofAlreadyExist)
        } else if !self.spec_whitelisted(issuer) {
            Err(Error::NotWhitelistEntity)
        } else {
            Ok(())
        }
    }

    /// What a successful registration does: one hold of [`MIN_BOND`] placed,
    /// the caller whitelisted, one notification, and nothing else touched.
    pub open spec fn register_transition(
        pre: Pallet,
        post: Pallet,
        ledger_pre: Ledger,
        ledger_post: Ledger,
        sys_pre: System,
        sys_post: System,
        issuer: AccountId,
    ) -> bool {
        &&& ledger_pre.spec_reducible(issuer) >= MIN_BOND
        &&& post.spec_whitelisted(issuer)
        &&& forall|a: AccountId|
            a != issuer ==> post.spec_whitelisted(a) == pre.spec_whitelisted(a)
        &&& post.spec_proofs() == pre.spec_proofs()
        &&& ledger_post.spec_holds() == ledger_pre.spec_holds().push(
            (Hold { reason: HoldReason::WhitelistEntity, who: issuer, amount: MIN_BOND }),
        )
        &&& ledger_post.spec_reducible(issuer) == ledger_pre.spec_reducible(issuer) - MIN_BOND
        &&& forall|a: AccountId|
            a != issuer ==> ledger_post.spec_reducible(a) == ledger_pre.spec_reducible(a)
        &&& sys_post.spec_events() == sys_pre.spec_events().push(
            (Event::WhitelistEntityRegistered { entity: issuer }),
        )
        &&& sys_post.spec_block_number() == sys_pre.spec_block_number()
    }

    /// The expiry recorded for a store at height `h` with duration `d`:
    /// the sum, saturated at the top of the type. The duration is
    /// caller-supplied and the field advisory, so the arithmetic must be
    /// overflow-safe for every `d`.
    pub open spec fn spec_expiry(h: BlockNumber, d: BlockNumber) -> BlockNumber {
        if h + d <= BlockNumber::MAX {
            (h + d) as BlockNumber
        } else {
            BlockNumber::MAX
        }
    }

    /// What a successful store does: the fresh key maps to the caller and
    /// the computed expiry, one notification, and nothing else touched.
    pub open spec fn store_transition(
        pre: Pallet,
        post: Pallet,
        sys_pre: System,
        sys_post: System,
        issuer: AccountId,
        proof_bytes: ProofBytes,
        expiration: BlockNumber,
    ) -> bool {
        let expiry = Self::spec_expiry(sys_pre.spec_block_number(), expiration);
        &&& !pre.spec_proofs().contains_key(proof_bytes@)
        &&& pre.spec_whitelisted(issuer)
        &&& post.spec_proofs() == pre.spec_proofs().insert(
            proof_bytes@,
            (ProofMeta { issuer, expiry_block: expiry }),
        )
        &&& forall|a: AccountId| post.spec_whitelisted(a) == pre.spec_whitelisted(a)
        &&& sys_post.spec_events() == sys_pre.spec_events().push(
            (Event::ProofStored { proof_bytes, issuer, expiry_block: expiry }),
        )
        &&& sys_post.spec_block_number() == sys_pre.spec_block_number()
    }

    /// Lifts a registry verdict to the dispatch surface.
    pub open spec fn as_dispatch(r: Result<(), Error>) -> Result<(), DispatchError> {
        match r {
            Ok(()) => Ok(()),
            Err(e) => Err(DispatchError::Module(e)),
        }
    }

    /// A registry with nothing whitelisted and nothing stored.
    pub fn new() -> (r: Pallet)
        ensures
            r.wf(),
            forall|a: AccountId| !r.spec_whitelisted(a),
            r.spec_proofs() =~= Map::<Seq<u8>, ProofMeta>::empty(),
    {
        Pallet { whitelist: WhitelistEntity::new(), proofs: IssuanceProof::new() }
    }

    /// Pure query: is `who` currently authorized to publish proofs?
    pub fn is_whitelisted(&self, who: AccountId) -> (r: bool)
        ensures
            r == self.spec_whitelisted(who),
    {
        self.whitelist.contains(who)
    }

    /// The metadata stored under the exact byte key, if any.
    pub fn proof_of(&self, key: &ProofBytes) -> (r: Option<ProofMeta>)
        requires
            self.wf(),
        ensures
            r == if self.spec_proofs().contains_key(key@) {
                Some(self.spec_proofs()[key@])
            } else {
                None::<ProofMeta>
            },
    {
        self.proofs.get(key)
    }

    fn has_enough_balance(ledger: &Ledger, issuer: AccountId, amount: Balance) -> (r: Result<
        (),
        Error,
    >)
        ensures
            r == if ledger.spec_reducible(issuer) >= amount {
                Ok::<(), Error>(())
            } else {
                Err::<(), Error>(Error::NotEnoughFund)
            },
    {
        let reducible = ledger.reducible_balance(issuer);
        if reducible < amount {
            return Err(Error::NotEnoughFund);
        }
        Ok(())
    }

    fn is_whitelist_entity(&self, issuer: AccountId) -> (r: Result<(), Error>)
        ensures
            r == if self.spec_whitelisted(issuer) {
                Ok::<(), Error>(())
            } else {
                Err::<(), Error>(Error::NotWhitelistEntity)
            },
    {
        if self.whitelist.contains(issuer) {
            Ok(())
        } else {
            Err(Error::NotWhitelistEntity)
        }
    }

    /// Registration: verify the caller can carry the bond, place the hold,
    /// whitelist the caller, notify. Fails with `NotEnoughFund`, touching
    /// nothing, exactly when the reducible balance is under [`MIN_BOND`].
    pub fn do_register_entity(
        &mut self,
        ledger: &mut Ledger,
        system: &mut System,
        issuer: AccountId,
    ) -> (r: Result<(), Error>)
        requires
            old(self).wf(),
        ensures
            final(self).wf(),
            r == Self::register_outcome(*old(ledger), issuer),
            r is Ok ==> Self::register_transition(
                *old(self),
                *final(self),
                *old(ledger),
                *final(ledger),
                *old(system),
                *final(system),
                issuer,
            ),
            r is Err ==> *final(self) == *old(self) && *final(ledger) == *old(ledger)
                && *final(system) == *old(system),
    {
        Self::has_enough_balance(ledger, issuer, MIN_BOND)?;
        match ledger.hold(HoldReason::WhitelistEntity, issuer, MIN_BOND) {
            Ok(()) => {},
            Err(_) => {
                // The ledger re-checks the reducible balance; within one
                // serial operation it cannot have changed since the check
                // above, so this rejection is unreachable.
                return Err(Error::NotEnoughFund);
            },
        }
        self.whitelist.insert(issuer);
        system.deposit_event(Event::WhitelistEntityRegistered { entity: issuer });
        Ok(())
    }

    /// Store a proof: reject duplicates, then unauthorized callers; record
    /// issuer and expiry (current height plus `expiration`) under the exact
    /// byte key, and notify. Every failure leaves all state untouched, and
    /// an entry once stored is never altered.
    pub fn do_store_proof(
        &mut self,
        system: &mut System,
        issuer: AccountId,
        proof_bytes: ProofBytes,
        expiration: BlockNumber,
    ) -> (r: Result<(), Error>)
        requires
            old(self).wf(),
            proof_bytes.wf(),
        ensures
            final(self).wf(),
            r == old(self).store_outcome(issuer, proof_bytes@),
            r is Ok ==> Self::store_transition(
                *old(self),
                *final(self),
                *old(system),
                *final(system),
                issuer,
                proof_bytes,
                expiration,
            ),
            r is Err ==> *final(self) == *old(self) && *final(system) == *old(system),
            forall|k: Seq<u8>|
                old(self).spec_proofs().contains_key(k) ==> final(self).spec_proofs().contains_key(
                    k,
                ) && final(self).spec_proofs()[k] == old(self).spec_proofs()[k],
    {
        if self.proofs.contains_key(&proof_bytes) {
            return Err(Error::ProofAlreadyExist);
        }
        self.is_whitelist_entity(issuer)?;
        let current_block: BlockNumber = system.block_number();
        let expiry_block: BlockNumber = if expiration <= BlockNumber::MAX - current_block {
            current_block + expiration
        } else {
            BlockNumber::MAX
        };
        let proof_meta = ProofMeta { issuer, expiry_block };
        let key = proof_bytes.clone();
        self.proofs.insert(key, proof_meta);
        system.deposit_event(Event::ProofStored { proof_bytes, issuer, expiry_block });
        Ok(())
    }

    /// Dispatchable surface of [`Self::do_store_proof`]: only signed calls
    /// are admitted.
    pub fn store_proof(
        &mut self,
        system: &mut System,
        origin: Origin,
        proof_bytes: ProofBytes,
        expiration: BlockNumber,
    ) -> (r: Result<(), DispatchError>)
        requires
            old(self).wf(),
            proof_bytes.wf(),
        ensures
            final(self).wf(),
            match origin {
                Origin::Signed(who) => {
                    &&& r == Self::as_dispatch(old(self).store_outcome(who, proof_bytes@))
                    &&& (r is Ok ==> Self::store_transition(
                        *old(self),
                        *final(self),
                        *old(system),
                        *final(system),
                        who,
                        proof_bytes,
                        expiration,
                    ))
                    &&& (r is Err ==> *final(self) == *old(self)
                        && *final(system) == *old(system))
                },
                _ => {
                    &&& r == Err::<(), DispatchError>(DispatchError::BadOrigin)
                    &&& *final(self) == *old(self)
                    &&& *final(system) == *old(system)
                },
            },
    {
        let who: AccountId = match origin {
            Origin::Signed(a) => a,
            _ => {
                return Err(DispatchError::BadOrigin);
            },
        };
        match self.do_store_proof(system, who, proof_bytes, expiration) {
            Ok(()) => Ok(()),
            Err(e) => Err(DispatchError::Module(e)),
        }
    }

    /// Dispatchable surface of [`Self::do_register_entity`]: only signed
    /// calls are admitted.
    pub fn register_entity(
        &mut self,
        ledger: &mut Ledger,
        system: &mut System,
        origin: Origin,
    ) -> (r: Result<(), DispatchError>)
        requires
            old(self).wf(),
        ensures
            final(self).wf(),
            match origin {
                Origin::Signed(who) => {
                    &&& r == Self::as_dispatch(Self::register_outcome(*old(ledger), who))
                    &&& (r is Ok ==> Self::register_transition(
                        *old(self),
                        *final(self),
                        *old(ledger),
                        *final(ledger),
                        *old(system),
                        *final(system),
                        who,
                    ))
                    &&& (r is Err ==> *final(self) == *old(self)
                        && *final(ledger) == *old(ledger) && *final(system) == *old(system))
                },
                _ => {
                    &&& r == Err::<(), DispatchError>(DispatchError::BadOrigin)
                    &&& *final(self) == *old(self)
                    &&& *final(ledger) == *old(ledger)
                    &&& *final(system) == *old(system)
                },
            },
    {
        let who: AccountId = match origin {
            Origin::Signed(a) => a,
            _ => {
                return Err(DispatchError::BadOrigin);
            },
        };
        match self.do_register_entity(ledger, system, who) {
            Ok(()) => Ok(()),
            Err(e) => Err(DispatchError::Module(e)),
        }
    }
}

/// Law: a stored proof, looked up by its exact byte key, carries precisely
/// the issuer and the expiry — current height plus requested duration —
/// recorded at insertion.
pub proof fn lemma_store_round_trip(
    pre: Pallet,
    post: Pallet,
    sys_pre: System,
    sys_post: System,
    issuer: AccountId,
    proof_bytes: ProofBytes,
    expiration: BlockNumber,
)
    requires
        Pallet::store_transition(pre, post, sys_pre, sys_post, issuer, proof_bytes, expiration),
    ensures
        post.spec_proofs().contains_key(proof_bytes@),
        post.spec_proofs()[proof_bytes@] == (ProofMeta {
            issuer,
            expiry_block: Pallet::spec_expiry(sys_pre.spec_block_number(), expiration),
        }),
{
}

/// Law: once a proof is stored, a second store of the same bytes is
/// rejected as a duplicate, whoever submits it — whitelisted or not.
pub proof fn lemma_duplicate_rejected(
    pre: Pallet,
    post: Pallet,
    sys_pre: System,
    sys_post: System,
    issuer: AccountId,
    proof_bytes: ProofBytes,
    expiration: BlockNumber,
    caller: AccountId,
)
    requires
        Pallet::store_transition(pre, post, sys_pre, sys_post, issuer, proof_bytes, expiration),
    ensures
        post.store_outcome(caller, proof_bytes@) == Err::<(), Error>(Error::ProofAlreadyExist),
{
}

/// Law: the store never mutates an existing entry — a later successful
/// store, necessarily of a different key, leaves every proof stored before
/// it exactly as it was.
pub proof fn lemma_stored_proof_immutable(
    pre: Pallet,
    post: Pallet,
    sys_pre: System,
    sys_post: System,
    issuer: AccountId,
    proof_bytes: ProofBytes,
    expiration: BlockNumber,
    k: Seq<u8>,
)
    requires
        Pallet::store_transition(pre, post, sys_pre, sys_post, issuer, proof_bytes, expiration),
        pre.spec_proofs().contains_key(k),
    ensures
        k != proof_bytes@,
        post.spec_proofs().contains_key(k),
        post.spec_proofs()[k] == pre.spec_proofs()[k],
{
}

} // verus!
