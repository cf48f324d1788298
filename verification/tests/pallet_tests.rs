use issuance_proof::ledger::{Hold, LedgerError};
use issuance_proof::mock::{new_test_ext, Test};
use issuance_proof::pallet::{
    DispatchError, Error, Event, HoldReason, Origin, ProofBytes, ProofMeta, MIN_BOND,
};

#[test]
fn test_failed_register_entity() {
    let mut ext = new_test_ext();
    let issuer = Test::create_user_account(0);
    // registration fails when the fund is not enough
    assert_eq!(
        ext.pallet.do_register_entity(&mut ext.ledger, &mut ext.system, issuer),
        Err(Error::NotEnoughFund)
    );
}

#[test]
fn test_success_register_entity() {
    let mut ext = new_test_ext();
    let issuer = Test::create_user_account(0);
    // mint tokens before registering
    let _ = ext.ledger.mint_into(issuer, (u32::MAX << 10) as u128);
    assert_eq!(ext.pallet.do_register_entity(&mut ext.ledger, &mut ext.system, issuer), Ok(()));
}

#[test]
fn test_store_proof_not_whitelist_entity() {
    let mut ext = new_test_ext();
    let issuer = Test::create_user_account(0);
    // mint tokens, but do not register
    let _ = ext.ledger.mint_into(issuer, (u32::MAX << 10) as u128);
    let payload = vec![1u8; 512];
    let payload = ProofBytes::try_new(payload).expect("proof too long");
    // storing while not whitelisted must fail
    assert_eq!(
        ext.pallet.do_store_proof(&mut ext.system, issuer, payload, 1000),
        Err(Error::NotWhitelistEntity)
    );
}

#[test]
fn test_success_store_proof() {
    let mut ext = new_test_ext();
    let issuer = Test::create_user_account(0);
    // mint tokens before registering
    let _ = ext.ledger.mint_into(issuer, (u32::MAX << 10) as u128);
    assert_eq!(ext.pallet.do_register_entity(&mut ext.ledger, &mut ext.system, issuer), Ok(()));
    let payload = vec![1u8; 512];
    let payload = ProofBytes::try_new(payload).expect("proof too long");
    assert_eq!(ext.pallet.do_store_proof(&mut ext.system, issuer, payload, 1000), Ok(()));
}

#[test]
fn test_store_proof_already_exist() {
    let mut ext = new_test_ext();
    let issuer = Test::create_user_account(0);
    // mint tokens before registering
    let _ = ext.ledger.mint_into(issuer, (u32::MAX << 10) as u128);
    assert_eq!(ext.pallet.do_register_entity(&mut ext.ledger, &mut ext.system, issuer), Ok(()));
    let payload = vec![1u8; 512];
    let payload = ProofBytes::try_new(payload).expect("proof too long");
    assert_eq!(
        ext.pallet.do_store_proof(&mut ext.system, issuer, payload.clone(), 1000),
        Ok(())
    );
    // storing the same bytes again must fail
    assert_eq!(
        ext.pallet.do_store_proof(&mut ext.system, issuer, payload.clone(), 1000),
        Err(Error::ProofAlreadyExist)
    );
}

#[test]
fn test_register_entity_places_bond_hold() {
    let mut ext = new_test_ext();
    let issuer = Test::create_user_account(0);
    let minted: u128 = 10 * MIN_BOND;
    let _ = ext.ledger.mint_into(issuer, minted);
    assert!(!ext.pallet.is_whitelisted(issuer));
    assert_eq!(ext.pallet.do_register_entity(&mut ext.ledger, &mut ext.system, issuer), Ok(()));
    // exactly one hold of MIN_BOND, tagged for whitelisting
    assert_eq!(ext.ledger.holds().len(), 1);
    assert_eq!(
        ext.ledger.holds()[0],
        Hold { reason: HoldReason::WhitelistEntity, who: issuer, amount: MIN_BOND }
    );
    // the bond left the reducible balance, and the caller is whitelisted
    assert_eq!(ext.ledger.reducible_balance(issuer), minted - MIN_BOND);
    assert!(ext.pallet.is_whitelisted(issuer));
    // one notification
    assert_eq!(ext.system.events().len(), 1);
    assert!(matches!(
        ext.system.events()[0],
        Event::WhitelistEntityRegistered { entity } if entity == issuer
    ));
}

#[test]
fn test_failed_register_entity_changes_nothing() {
    let mut ext = new_test_ext();
    let issuer = Test::create_user_account(0);
    let funded: u128 = MIN_BOND - 1;
    let _ = ext.ledger.mint_into(issuer, funded);
    assert_eq!(
        ext.pallet.do_register_entity(&mut ext.ledger, &mut ext.system, issuer),
        Err(Error::NotEnoughFund)
    );
    assert!(!ext.pallet.is_whitelisted(issuer));
    assert_eq!(ext.ledger.holds().len(), 0);
    assert_eq!(ext.ledger.reducible_balance(issuer), funded);
    assert_eq!(ext.system.events().len(), 0);
}

#[test]
fn test_store_proof_records_issuer_and_expiry() {
    let mut ext = new_test_ext();
    let issuer = Test::create_user_account(0);
    let _ = ext.ledger.mint_into(issuer, 10 * MIN_BOND);
    assert_eq!(ext.pallet.do_register_entity(&mut ext.ledger, &mut ext.system, issuer), Ok(()));
    ext.system.set_block_number(5);
    let payload = vec![7u8, 8u8, 9u8];
    let key = ProofBytes::try_new(payload.clone()).expect("proof too long");
    assert_eq!(ext.pallet.do_store_proof(&mut ext.system, issuer, key.clone(), 1000), Ok(()));
    // look the proof up by its exact byte key: same issuer, expiry = 5 + 1000
    assert_eq!(
        ext.pallet.proof_of(&key),
        Some(ProofMeta { issuer, expiry_block: 1005 })
    );
    // the emitted event carries the same bytes, issuer and expiry
    assert_eq!(ext.system.events().len(), 2);
    assert!(matches!(
        &ext.system.events()[1],
        Event::ProofStored { proof_bytes, issuer: by, expiry_block }
            if *proof_bytes.as_bytes() == payload && *by == issuer && *expiry_block == 1005
    ));
}

#[test]
fn test_store_proof_failure_does_not_insert() {
    let mut ext = new_test_ext();
    let issuer = Test::create_user_account(0);
    let payload = ProofBytes::try_new(vec![42u8; 16]).expect("proof too long");
    assert_eq!(
        ext.pallet.do_store_proof(&mut ext.system, issuer, payload.clone(), 1000),
        Err(Error::NotWhitelistEntity)
    );
    assert_eq!(ext.pallet.proof_of(&payload), None);
    assert_eq!(ext.system.events().len(), 0);
}

#[test]
fn test_duplicate_detection_wins_over_authorization() {
    let mut ext = new_test_ext();
    let issuer = Test::create_user_account(0);
    let stranger = Test::create_user_account(1);
    let _ = ext.ledger.mint_into(issuer, 10 * MIN_BOND);
    assert_eq!(ext.pallet.do_register_entity(&mut ext.ledger, &mut ext.system, issuer), Ok(()));
    let payload = ProofBytes::try_new(vec![3u8; 100]).expect("proof too long");
    assert_eq!(ext.pallet.do_store_proof(&mut ext.system, issuer, payload.clone(), 10), Ok(()));
    // a non-whitelisted caller submitting the duplicate learns "already
    // exists", not "not authorized"
    assert!(!ext.pallet.is_whitelisted(stranger));
    assert_eq!(
        ext.pallet.do_store_proof(&mut ext.system, stranger, payload.clone(), 10),
        Err(Error::ProofAlreadyExist)
    );
}

#[test]
fn test_proof_bytes_length_bound() {
    assert!(ProofBytes::try_new(vec![1u8; 512]).is_some());
    assert!(ProofBytes::try_new(vec![1u8; 513]).is_none());
    assert!(ProofBytes::try_new(Vec::new()).is_some());
    let p = ProofBytes::try_new(vec![9u8; 3]).expect("proof too long");
    assert_eq!(p.len(), 3);
    assert_eq!(*p.as_bytes(), vec![9u8, 9u8, 9u8]);
}

#[test]
fn test_mint_into_overflow() {
    let mut ext = new_test_ext();
    let who = Test::create_user_account(0);
    assert_eq!(ext.ledger.mint_into(who, u128::MAX), Ok(()));
    assert_eq!(ext.ledger.mint_into(who, 1), Err(LedgerError::Overflow));
    assert_eq!(ext.ledger.reducible_balance(who), u128::MAX);
}

#[test]
fn test_hold_funds_unavailable() {
    let mut ext = new_test_ext();
    let who = Test::create_user_account(0);
    let _ = ext.ledger.mint_into(who, 5);
    assert_eq!(
        ext.ledger.hold(HoldReason::WhitelistEntity, who, 6),
        Err(LedgerError::FundsUnavailable)
    );
    assert_eq!(ext.ledger.holds().len(), 0);
    assert_eq!(ext.ledger.reducible_balance(who), 5);
}

#[test]
fn test_dispatch_requires_signed_origin() {
    let mut ext = new_test_ext();
    let issuer = Test::create_user_account(0);
    let _ = ext.ledger.mint_into(issuer, 10 * MIN_BOND);
    assert_eq!(
        ext.pallet.register_entity(&mut ext.ledger, &mut ext.system, Origin::Root),
        Err(DispatchError::BadOrigin)
    );
    assert_eq!(
        ext.pallet.register_entity(&mut ext.ledger, &mut ext.system, Origin::Signed(issuer)),
        Ok(())
    );
    let payload = ProofBytes::try_new(vec![5u8; 4]).expect("proof too long");
    assert_eq!(
        ext.pallet.store_proof(&mut ext.system, Origin::Unsigned, payload.clone(), 10),
        Err(DispatchError::BadOrigin)
    );
    assert_eq!(
        ext.pallet.store_proof(&mut ext.system, Origin::Signed(issuer), payload.clone(), 10),
        Ok(())
    );
    // dispatch wraps the registry's own errors
    assert_eq!(
        ext.pallet.store_proof(&mut ext.system, Origin::Signed(issuer), payload, 10),
        Err(DispatchError::Module(Error::ProofAlreadyExist))
    );
}

#[test]
fn test_reregistration_is_not_idempotent() {
    // registering twice with sufficient funds places the bond twice and
    // notifies twice
    let mut ext = new_test_ext();
    let issuer = Test::create_user_account(0);
    let _ = ext.ledger.mint_into(issuer, 10 * MIN_BOND);
    assert_eq!(ext.pallet.do_register_entity(&mut ext.ledger, &mut ext.system, issuer), Ok(()));
    assert_eq!(ext.pallet.do_register_entity(&mut ext.ledger, &mut ext.system, issuer), Ok(()));
    assert_eq!(ext.ledger.holds().len(), 2);
    assert_eq!(ext.ledger.reducible_balance(issuer), 8 * MIN_BOND);
    assert_eq!(ext.system.events().len(), 2);
    assert!(ext.pallet.is_whitelisted(issuer));
}

#[test]
fn test_create_user_account_is_deterministic() {
    assert_eq!(Test::create_user_account(0), Test::create_user_account(0));
    assert_ne!(Test::create_user_account(0), Test::create_user_account(1));
}

#[test]
fn test_full_scenario() {
    // a funded account registers, stores 512 bytes of 0x01 with duration
    // 1000 at height 3, a duplicate fails, and an unfunded account cannot
    // store fresh bytes
    let mut ext = new_test_ext();
    let a = Test::create_user_account(0);
    let b = Test::create_user_account(1);
    let _ = ext.ledger.mint_into(a, 2 * MIN_BOND);
    assert_eq!(ext.pallet.do_register_entity(&mut ext.ledger, &mut ext.system, a), Ok(()));
    ext.system.set_block_number(3);
    let payload = ProofBytes::try_new(vec![1u8; 512]).expect("proof too long");
    assert_eq!(ext.pallet.do_store_proof(&mut ext.system, a, payload.clone(), 1000), Ok(()));
    assert_eq!(ext.pallet.proof_of(&payload), Some(ProofMeta { issuer: a, expiry_block: 1003 }));
    assert_eq!(
        ext.pallet.do_store_proof(&mut ext.system, a, payload.clone(), 1000),
        Err(Error::ProofAlreadyExist)
    );
    let fresh = ProofBytes::try_new(vec![2u8; 512]).expect("proof too long");
    assert_eq!(
        ext.pallet.do_store_proof(&mut ext.system, b, fresh.clone(), 1000),
        Err(Error::NotWhitelistEntity)
    );
    assert_eq!(ext.pallet.proof_of(&fresh), None);
    // the stored proof is still exactly as recorded
    assert_eq!(ext.pallet.proof_of(&payload), Some(ProofMeta { issuer: a, expiry_block: 1003 }));
}

#[test]
fn test_store_proof_expiry_saturates() {
    // the duration is caller-supplied: an extreme value must not abort, and
    // the advisory expiry saturates at the top of the type
    let mut ext = new_test_ext();
    let issuer = Test::create_user_account(0);
    let _ = ext.ledger.mint_into(issuer, 10 * MIN_BOND);
    assert_eq!(ext.pallet.do_register_entity(&mut ext.ledger, &mut ext.system, issuer), Ok(()));
    ext.system.set_block_number(5);
    let payload = ProofBytes::try_new(vec![6u8; 8]).expect("proof too long");
    assert_eq!(
        ext.pallet.do_store_proof(&mut ext.system, issuer, payload.clone(), u128::MAX),
        Ok(())
    );
    assert_eq!(
        ext.pallet.proof_of(&payload),
        Some(ProofMeta { issuer, expiry_block: u128::MAX })
    );
    // an in-range duration still records the exact sum
    let exact = ProofBytes::try_new(vec![7u8; 8]).expect("proof too long");
    assert_eq!(ext.pallet.do_store_proof(&mut ext.system, issuer, exact.clone(), 1000), Ok(()));
    assert_eq!(ext.pallet.proof_of(&exact), Some(ProofMeta { issuer, expiry_block: 1005 }));
}
