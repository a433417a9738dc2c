use poe::{ClaimRecord, Config, Error, Event, Pallet};

fn fresh() -> Pallet {
    Pallet::new(Config { max_bytes_in_hash: 32 })
}

#[test]
fn scenario_register_revoke_transfer() {
    let alice: u64 = 1;
    let bob: u64 = 2;
    let h0: u64 = 5;
    let mut p = fresh();
    assert_eq!(p.claim_count(), 0);

    let r = p.create_claim(alice, vec![0x01], h0);
    assert_eq!(r, Ok(Event::ClaimCreated(alice, vec![0x01])));
    assert_eq!(p.claim_count(), 1);
    assert_eq!(
        p.get_claim(&vec![0x01]),
        Some(ClaimRecord { owner: alice, height: h0 })
    );

    let r = p.create_claim(bob, vec![0x01], h0 + 1);
    assert_eq!(r, Err(Error::ProofAlreadyClaimed));

    let r = p.revoke_claim(bob, vec![0x01]);
    assert_eq!(r, Err(Error::NotProofOwner));

    let r = p.revoke_claim(alice, vec![0x01]);
    assert_eq!(r, Ok(Event::ClaimRevoked(alice, vec![0x01])));
    assert_eq!(p.claim_count(), 0);
    assert_eq!(p.get_claim(&vec![0x01]), None);

    let r = p.transfer_claim(alice, vec![0x01], bob, h0 + 2);
    assert_eq!(r, Err(Error::NoSuchProof));
}

#[test]
fn second_registration_fails_and_changes_nothing() {
    let mut p = fresh();
    assert!(p.create_claim(1, vec![9, 9, 9], 100).is_ok());
    let r = p.create_claim(1, vec![9, 9, 9], 200);
    assert_eq!(r, Err(Error::ProofAlreadyClaimed));
    let r = p.create_claim(2, vec![9, 9, 9], 300);
    assert_eq!(r, Err(Error::ProofAlreadyClaimed));
    assert_eq!(
        p.get_claim(&vec![9, 9, 9]),
        Some(ClaimRecord { owner: 1, height: 100 })
    );
    assert_eq!(p.claim_count(), 1);
}

#[test]
fn revoke_by_non_owner_is_rejected() {
    let mut p = fresh();
    assert!(p.create_claim(1, vec![0xAB, 0xCD], 7).is_ok());
    assert_eq!(p.revoke_claim(2, vec![0xAB, 0xCD]), Err(Error::NotProofOwner));
    assert_eq!(
        p.get_claim(&vec![0xAB, 0xCD]),
        Some(ClaimRecord { owner: 1, height: 7 })
    );
}

#[test]
fn transfer_by_non_owner_is_rejected() {
    let mut p = fresh();
    assert!(p.create_claim(1, vec![0xAB], 7).is_ok());
    assert_eq!(
        p.transfer_claim(3, vec![0xAB], 2, 8),
        Err(Error::NotProofOwner)
    );
    assert_eq!(
        p.get_claim(&vec![0xAB]),
        Some(ClaimRecord { owner: 1, height: 7 })
    );
}

#[test]
fn revoke_then_reregister_gives_new_owner() {
    let mut p = fresh();
    assert!(p.create_claim(1, vec![4, 2], 10).is_ok());
    assert!(p.revoke_claim(1, vec![4, 2]).is_ok());
    let r = p.create_claim(2, vec![4, 2], 20);
    assert_eq!(r, Ok(Event::ClaimCreated(2, vec![4, 2])));
    assert_eq!(
        p.get_claim(&vec![4, 2]),
        Some(ClaimRecord { owner: 2, height: 20 })
    );
}

#[test]
fn transfer_updates_owner_and_height() {
    let mut p = fresh();
    assert!(p.create_claim(1, vec![7], 10).is_ok());
    let r = p.transfer_claim(1, vec![7], 2, 33);
    assert_eq!(r, Ok(Event::ClaimTransferred(1, 2, vec![7])));
    assert_eq!(
        p.get_claim(&vec![7]),
        Some(ClaimRecord { owner: 2, height: 33 })
    );
    assert_eq!(p.claim_count(), 1);
}

#[test]
fn self_transfer_succeeds_and_refreshes_height() {
    let mut p = fresh();
    assert!(p.create_claim(1, vec![7], 10).is_ok());
    let r = p.transfer_claim(1, vec![7], 1, 11);
    assert_eq!(r, Ok(Event::ClaimTransferred(1, 1, vec![7])));
    assert_eq!(
        p.get_claim(&vec![7]),
        Some(ClaimRecord { owner: 1, height: 11 })
    );
}

#[test]
fn failing_calls_leave_state_unchanged() {
    let mut p = fresh();
    assert!(p.create_claim(1, vec![1], 10).is_ok());
    assert!(p.create_claim(2, vec![2], 11).is_ok());

    assert_eq!(p.create_claim(3, vec![1], 12), Err(Error::ProofAlreadyClaimed));
    assert_eq!(p.revoke_claim(2, vec![1]), Err(Error::NotProofOwner));
    assert_eq!(p.revoke_claim(3, vec![3]), Err(Error::NoSuchProof));
    assert_eq!(p.transfer_claim(2, vec![1], 3, 13), Err(Error::NotProofOwner));
    assert_eq!(p.transfer_claim(1, vec![3], 3, 14), Err(Error::NoSuchProof));

    assert_eq!(p.claim_count(), 2);
    assert_eq!(p.get_claim(&vec![1]), Some(ClaimRecord { owner: 1, height: 10 }));
    assert_eq!(p.get_claim(&vec![2]), Some(ClaimRecord { owner: 2, height: 11 }));
}

#[test]
fn empty_fingerprint_is_a_valid_key() {
    let mut p = fresh();
    let r = p.create_claim(1, vec![], 1);
    assert_eq!(r, Ok(Event::ClaimCreated(1, vec![])));
    assert!(p.contains_claim(&vec![]));
    assert_eq!(p.revoke_claim(1, vec![]), Ok(Event::ClaimRevoked(1, vec![])));
    assert!(!p.contains_claim(&vec![]));
}

#[test]
fn fingerprint_of_maximum_length_is_accepted() {
    let mut p = Pallet::new(Config { max_bytes_in_hash: 4 });
    assert_eq!(p.max_bytes_in_hash(), 4);
    let full = vec![0xFF, 0xFF, 0xFF, 0xFF];
    let r = p.create_claim(1, full.clone(), 2);
    assert_eq!(r, Ok(Event::ClaimCreated(1, full.clone())));
    assert!(p.contains_claim(&full));
}

#[test]
fn distinct_fingerprints_coexist() {
    let mut p = fresh();
    assert!(p.create_claim(1, vec![1], 1).is_ok());
    assert!(p.create_claim(2, vec![1, 1], 2).is_ok());
    assert!(p.create_claim(3, vec![2], 3).is_ok());
    assert_eq!(p.claim_count(), 3);
    assert_eq!(p.get_claim(&vec![1]), Some(ClaimRecord { owner: 1, height: 1 }));
    assert_eq!(p.get_claim(&vec![1, 1]), Some(ClaimRecord { owner: 2, height: 2 }));
    assert_eq!(p.get_claim(&vec![2]), Some(ClaimRecord { owner: 3, height: 3 }));
    assert!(p.revoke_claim(2, vec![1, 1]).is_ok());
    assert_eq!(p.claim_count(), 2);
    assert_eq!(p.get_claim(&vec![1, 1]), None);
    assert_eq!(p.get_claim(&vec![1]), Some(ClaimRecord { owner: 1, height: 1 }));
    assert_eq!(p.get_claim(&vec![2]), Some(ClaimRecord { owner: 3, height: 3 }));
}
