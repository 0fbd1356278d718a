use poe::model::Error;
use poe::registry::{Config, Event, Pallet};

fn new_registry(max_identifier_len: usize) -> Pallet {
    Pallet::new(Config { max_identifier_len })
}

#[test]
fn create_claim_works() {
    let mut registry = new_registry(10);
    let claim = vec![0, 1];
    assert!(registry.create_claim(1, claim.clone(), 0).is_ok());
    assert_eq!(registry.proofs(&claim), Some((1, 0)));
}

#[test]
fn revoke_claim_works() {
    let mut registry = new_registry(10);
    let claim = vec![0, 1];
    let _ = registry.create_claim(1, claim.clone(), 0);
    assert_eq!(
        registry.create_claim(1, claim.clone(), 0),
        Err(Error::ProofAlreadyExists)
    );
    assert!(registry.revoke_claim(1, claim.clone()).is_ok());
    assert_eq!(registry.proofs(&claim), None);
}

#[test]
fn transfer_claim_works() {
    let mut registry = new_registry(10);
    let claim = vec![0, 1];
    let _ = registry.create_claim(1, claim.clone(), 0);
    assert_eq!(
        registry.create_claim(1, claim.clone(), 0),
        Err(Error::ProofAlreadyExists)
    );
    assert!(registry.transfer_claim(1, claim.clone(), 2, 0).is_ok());
    assert_eq!(registry.proofs(&claim), Some((2, 0)));
    assert_eq!(
        registry.transfer_claim(1, claim.clone(), 2, 0),
        Err(Error::NotClaimOwner)
    );
}

#[test]
fn exceed_vec_len_limit() {
    let mut registry = new_registry(10);
    let mut claim = Vec::new();
    for _ in 0..10 {
        claim.push(0);
    }
    assert_eq!(
        registry.create_claim(1, claim.clone(), 0),
        Err(Error::BadMetadata)
    );
    assert_eq!(registry.proofs(&claim), None);
    let claim_correct = vec![0, 0, 0, 0, 0, 0, 0, 0, 0];
    assert!(registry.create_claim(1, claim_correct.clone(), 0).is_ok());
}

#[test]
fn create_is_unique_until_revoked() {
    let mut registry = new_registry(10);
    let claim = vec![7, 7, 7];
    assert!(registry.create_claim(1, claim.clone(), 3).is_ok());
    assert_eq!(
        registry.create_claim(2, claim.clone(), 4),
        Err(Error::ProofAlreadyExists)
    );
    assert_eq!(
        registry.create_claim(1, claim.clone(), 5),
        Err(Error::ProofAlreadyExists)
    );
    assert_eq!(registry.proofs(&claim), Some((1, 3)));
    assert!(registry.revoke_claim(1, claim.clone()).is_ok());
    assert!(registry.create_claim(2, claim.clone(), 6).is_ok());
    assert_eq!(registry.proofs(&claim), Some((2, 6)));
}

#[test]
fn only_the_owner_may_revoke_or_transfer() {
    let mut registry = new_registry(10);
    let claim = vec![4, 2];
    assert!(registry.create_claim(1, claim.clone(), 0).is_ok());
    assert_eq!(
        registry.revoke_claim(2, claim.clone()),
        Err(Error::NotClaimOwner)
    );
    assert_eq!(
        registry.transfer_claim(2, claim.clone(), 3, 1),
        Err(Error::NotClaimOwner)
    );
    assert_eq!(registry.proofs(&claim), Some((1, 0)));
}

#[test]
fn absent_claims_cannot_be_revoked_or_transferred() {
    let mut registry = new_registry(10);
    let claim = vec![9];
    assert_eq!(
        registry.revoke_claim(1, claim.clone()),
        Err(Error::ClaimNotExist)
    );
    assert_eq!(
        registry.transfer_claim(1, claim.clone(), 2, 0),
        Err(Error::ClaimNotExist)
    );
    assert_eq!(registry.proofs(&claim), None);
}

#[test]
fn length_bound_gates_every_operation() {
    let mut registry = new_registry(4);
    let short = vec![1, 2, 3];
    assert!(registry.create_claim(1, short.clone(), 0).is_ok());

    let at_limit = vec![0, 0, 0, 0];
    let over_limit = vec![0, 0, 0, 0, 0];
    for long in [at_limit, over_limit] {
        assert_eq!(
            registry.create_claim(1, long.clone(), 1),
            Err(Error::BadMetadata)
        );
        assert_eq!(
            registry.revoke_claim(1, long.clone()),
            Err(Error::BadMetadata)
        );
        assert_eq!(
            registry.transfer_claim(1, long.clone(), 2, 1),
            Err(Error::BadMetadata)
        );
        assert_eq!(registry.proofs(&long), None);
    }
    // The registered claim is untouched by the rejected calls.
    assert_eq!(registry.proofs(&short), Some((1, 0)));
    assert_eq!(registry.event_log().len(), 1);
}

#[test]
fn transfer_refreshes_registration_position() {
    let mut registry = new_registry(10);
    let claim = vec![5, 5];
    assert!(registry.create_claim(1, claim.clone(), 5).is_ok());
    assert!(registry.transfer_claim(1, claim.clone(), 2, 9).is_ok());
    assert_eq!(registry.proofs(&claim), Some((2, 9)));
}

#[test]
fn self_transfer_is_legal_and_refreshes_position() {
    let mut registry = new_registry(10);
    let claim = vec![8];
    assert!(registry.create_claim(1, claim.clone(), 2).is_ok());
    assert!(registry.transfer_claim(1, claim.clone(), 1, 7).is_ok());
    assert_eq!(registry.proofs(&claim), Some((1, 7)));
}

#[test]
fn revoke_removes_the_entry() {
    let mut registry = new_registry(10);
    let claim = vec![3, 1, 4];
    assert!(registry.create_claim(1, claim.clone(), 0).is_ok());
    assert!(registry.revoke_claim(1, claim.clone()).is_ok());
    assert_eq!(registry.proofs(&claim), None);
    assert!(registry.create_claim(2, claim.clone(), 1).is_ok());
    assert_eq!(registry.proofs(&claim), Some((2, 1)));
}

#[test]
fn empty_identifier_is_accepted_under_a_positive_bound() {
    let mut registry = new_registry(1);
    let claim: Vec<u8> = vec![];
    assert!(registry.create_claim(1, claim.clone(), 0).is_ok());
    assert_eq!(registry.proofs(&claim), Some((1, 0)));
    let one_byte = vec![0];
    assert_eq!(
        registry.create_claim(1, one_byte.clone(), 0),
        Err(Error::BadMetadata)
    );
}

#[test]
fn zero_bound_rejects_everything() {
    let mut registry = new_registry(0);
    let claim: Vec<u8> = vec![];
    assert_eq!(
        registry.create_claim(1, claim.clone(), 0),
        Err(Error::BadMetadata)
    );
    assert_eq!(registry.revoke_claim(1, claim.clone()), Err(Error::BadMetadata));
    assert_eq!(
        registry.transfer_claim(1, claim.clone(), 2, 0),
        Err(Error::BadMetadata)
    );
}

#[test]
fn distinct_identifiers_live_side_by_side() {
    let mut registry = new_registry(10);
    let first = vec![1];
    let second = vec![2];
    assert!(registry.create_claim(1, first.clone(), 0).is_ok());
    assert!(registry.create_claim(2, second.clone(), 1).is_ok());
    assert!(registry.revoke_claim(1, first.clone()).is_ok());
    assert_eq!(registry.proofs(&first), None);
    assert_eq!(registry.proofs(&second), Some((2, 1)));
}

#[test]
fn one_event_per_success_in_order() {
    let mut registry = new_registry(10);
    let claim = vec![0, 1];
    assert!(registry.create_claim(1, claim.clone(), 0).is_ok());
    // A rejected call emits nothing.
    assert_eq!(
        registry.create_claim(2, claim.clone(), 0),
        Err(Error::ProofAlreadyExists)
    );
    assert!(registry.transfer_claim(1, claim.clone(), 2, 1).is_ok());
    assert!(registry.revoke_claim(2, claim.clone()).is_ok());

    let log = registry.event_log();
    assert_eq!(log.len(), 3);
    assert!(matches!(&log[0], Event::ClaimCreated(1, id) if *id == claim));
    assert!(matches!(&log[1], Event::ClaimMutated(1, id, 2) if *id == claim));
    assert!(matches!(&log[2], Event::ClaimRevoked(2, id) if *id == claim));
}

#[test]
fn registry_walkthrough() {
    // With a bound of 10: create, duplicate create, transfer, stale transfer,
    // oversized create, and a create just under the bound.
    let mut registry = new_registry(10);
    let claim = vec![0, 1];
    let h0 = 11;
    let h1 = 12;
    assert!(registry.create_claim(1, claim.clone(), h0).is_ok());
    assert_eq!(registry.proofs(&claim), Some((1, h0)));
    assert_eq!(
        registry.create_claim(1, claim.clone(), h0),
        Err(Error::ProofAlreadyExists)
    );
    assert!(registry.transfer_claim(1, claim.clone(), 2, h1).is_ok());
    assert_eq!(registry.proofs(&claim), Some((2, h1)));
    assert_eq!(
        registry.transfer_claim(1, claim.clone(), 2, h1),
        Err(Error::NotClaimOwner)
    );
    let too_long = vec![0; 10];
    assert_eq!(
        registry.create_claim(1, too_long, h1),
        Err(Error::BadMetadata)
    );
    let just_fits = vec![0; 9];
    assert!(registry.create_claim(1, just_fits, h1).is_ok());
}
