use proof_registry::registry::{ClaimRecord, Config, Error, Event, Pallet};

const ALICE: u64 = 1;
const BOB: u64 = 2;
const CAROL: u64 = 3;

fn registry() -> Pallet {
    Pallet::new(Config { max_bytes_in_hash: 8 })
}

#[test]
fn alice_bob_scenario() {
    let mut p = registry();
    let f = vec![0xAAu8];
    assert_eq!(p.claim_proof(ALICE, f.clone(), 10), Ok(Event::ClaimCreated(ALICE, f.clone())));
    assert_eq!(p.claim_of(&f), Some(ClaimRecord { owner: ALICE, created_at: 10 }));
    assert_eq!(p.claim_proof(BOB, f.clone(), 20), Err(Error::ProofAlreadyClaimed));
    assert_eq!(p.revoke_proof(BOB, f.clone()), Err(Error::NotProofOwner));
    assert_eq!(p.revoke_proof(ALICE, f.clone()), Ok(Event::ClaimRevoked(ALICE, f.clone())));
    assert_eq!(p.claim_of(&f), None);
    assert_eq!(p.claim_proof(BOB, f.clone(), 55), Ok(Event::ClaimCreated(BOB, f.clone())));
    assert_eq!(p.claim_of(&f), Some(ClaimRecord { owner: BOB, created_at: 55 }));
}

#[test]
fn second_claim_by_same_owner_is_refused() {
    let mut p = registry();
    let f = vec![1u8, 2, 3];
    assert!(p.claim_proof(ALICE, f.clone(), 1).is_ok());
    assert_eq!(p.claim_proof(ALICE, f.clone(), 2), Err(Error::ProofAlreadyClaimed));
    assert_eq!(p.claim_of(&f), Some(ClaimRecord { owner: ALICE, created_at: 1 }));
}

#[test]
fn claim_stays_through_other_fingerprints() {
    let mut p = registry();
    let f = vec![7u8];
    let g = vec![8u8];
    assert!(p.claim_proof(ALICE, f.clone(), 1).is_ok());
    assert!(p.claim_proof(BOB, g.clone(), 2).is_ok());
    assert!(p.revoke_proof(BOB, g.clone()).is_ok());
    assert_eq!(p.revoke_proof(BOB, f.clone()), Err(Error::NotProofOwner));
    assert_eq!(p.claim_proof(CAROL, f.clone(), 3), Err(Error::ProofAlreadyClaimed));
    assert_eq!(p.claim_of(&f), Some(ClaimRecord { owner: ALICE, created_at: 1 }));
}

#[test]
fn only_owner_revokes() {
    let mut p = registry();
    let f = vec![0x10u8, 0x20];
    assert!(p.claim_proof(CAROL, f.clone(), 4).is_ok());
    assert_eq!(p.revoke_proof(ALICE, f.clone()), Err(Error::NotProofOwner));
    assert_eq!(p.revoke_proof(BOB, f.clone()), Err(Error::NotProofOwner));
    assert_eq!(p.claim_of(&f), Some(ClaimRecord { owner: CAROL, created_at: 4 }));
    assert_eq!(p.revoke_proof(CAROL, f.clone()), Ok(Event::ClaimRevoked(CAROL, f.clone())));
}

#[test]
fn round_trip_frees_fingerprint() {
    let mut p = registry();
    let f = vec![5u8, 5];
    assert!(p.claim_proof(ALICE, f.clone(), 3).is_ok());
    assert!(p.revoke_proof(ALICE, f.clone()).is_ok());
    assert_eq!(p.claim_of(&f), None);
    assert_eq!(p.claim_proof(CAROL, f.clone(), 9), Ok(Event::ClaimCreated(CAROL, f.clone())));
    assert_eq!(p.claim_of(&f), Some(ClaimRecord { owner: CAROL, created_at: 9 }));
}

#[test]
fn revoke_of_never_claimed() {
    let mut p = registry();
    assert_eq!(p.revoke_proof(ALICE, vec![9u8]), Err(Error::ProofDoesNotExist));
    assert!(p.claim_proof(ALICE, vec![1u8], 1).is_ok());
    assert_eq!(p.revoke_proof(ALICE, vec![9u8]), Err(Error::ProofDoesNotExist));
}

#[test]
fn revoke_of_already_revoked() {
    let mut p = registry();
    let f = vec![4u8];
    assert!(p.claim_proof(BOB, f.clone(), 1).is_ok());
    assert!(p.revoke_proof(BOB, f.clone()).is_ok());
    assert_eq!(p.revoke_proof(BOB, f.clone()), Err(Error::ProofDoesNotExist));
    assert_eq!(p.revoke_proof(ALICE, f.clone()), Err(Error::ProofDoesNotExist));
}

#[test]
fn repeated_failure_changes_nothing() {
    let mut p = registry();
    let f = vec![3u8];
    assert!(p.claim_proof(ALICE, f.clone(), 6).is_ok());
    for _ in 0..5 {
        assert_eq!(p.claim_proof(BOB, f.clone(), 7), Err(Error::ProofAlreadyClaimed));
        assert_eq!(p.revoke_proof(BOB, f.clone()), Err(Error::NotProofOwner));
        assert_eq!(p.revoke_proof(ALICE, vec![0u8]), Err(Error::ProofDoesNotExist));
    }
    assert_eq!(p.claim_of(&f), Some(ClaimRecord { owner: ALICE, created_at: 6 }));
    assert_eq!(p.claim_of(&vec![0u8]), None);
}

#[test]
fn fingerprint_too_long() {
    let mut p = registry();
    let long = vec![0u8; 9];
    assert_eq!(p.claim_proof(ALICE, long.clone(), 1), Err(Error::ProofTooLong));
    assert_eq!(p.revoke_proof(ALICE, long.clone()), Err(Error::ProofTooLong));
    assert_eq!(p.claim_of(&long), None);
}

#[test]
fn fingerprint_at_the_bound_is_accepted() {
    let mut p = registry();
    let edge = vec![0xFFu8; 8];
    assert!(p.claim_proof(ALICE, edge.clone(), 1).is_ok());
    assert_eq!(p.claim_of(&edge), Some(ClaimRecord { owner: ALICE, created_at: 1 }));
}

#[test]
fn empty_fingerprint() {
    let mut p = Pallet::new(Config { max_bytes_in_hash: 0 });
    assert_eq!(p.max_bytes_in_hash(), 0);
    assert_eq!(p.claim_proof(ALICE, vec![], 2), Ok(Event::ClaimCreated(ALICE, vec![])));
    assert_eq!(p.claim_proof(BOB, vec![], 3), Err(Error::ProofAlreadyClaimed));
    assert_eq!(p.claim_proof(BOB, vec![1u8], 3), Err(Error::ProofTooLong));
}

#[test]
fn fingerprints_differ_by_every_byte() {
    let mut p = registry();
    assert!(p.claim_proof(ALICE, vec![1u8, 2], 1).is_ok());
    assert!(p.claim_proof(BOB, vec![1u8, 3], 2).is_ok());
    assert!(p.claim_proof(CAROL, vec![1u8], 3).is_ok());
    assert!(p.claim_proof(CAROL, vec![1u8, 2, 0], 4).is_ok());
    assert_eq!(p.claim_of(&vec![1u8, 2]), Some(ClaimRecord { owner: ALICE, created_at: 1 }));
    assert_eq!(p.claim_of(&vec![1u8, 3]), Some(ClaimRecord { owner: BOB, created_at: 2 }));
    assert!(p.revoke_proof(ALICE, vec![1u8, 2]).is_ok());
    assert_eq!(p.claim_of(&vec![1u8, 3]), Some(ClaimRecord { owner: BOB, created_at: 2 }));
    assert_eq!(p.claim_of(&vec![1u8, 2, 0]), Some(ClaimRecord { owner: CAROL, created_at: 4 }));
}
