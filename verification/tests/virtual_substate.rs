use tari_dan::virtual_substate::{
    fee_claim, generate_for_address, get_virtual_substates, read_for_address, PublicKey, VirtualSubstate,
    VirtualSubstateError, VirtualSubstateId, VirtualSubstateManager, VirtualSubstateRead,
};

fn key(n: u8) -> PublicKey {
    PublicKey { bytes: vec![n; 4] }
}

#[test]
fn manager_holds_what_it_was_given() {
    let m = VirtualSubstateManager::new("store", 7u32);
    let _ = m;
}

#[test]
fn fee_claim_carries_the_amount_due() {
    let c = fee_claim(3, &key(1), 250);
    assert_eq!(c.epoch, 3);
    assert_eq!(c.validator_public_key.bytes, vec![1; 4]);
    assert_eq!(c.amount, 250);
}

#[test]
fn current_epoch_substate() {
    let id = VirtualSubstateId::CurrentEpoch;
    assert!(matches!(read_for_address(&id), VirtualSubstateRead::CurrentEpoch));
    assert!(matches!(generate_for_address(&id, Ok(12)), Ok(VirtualSubstate::CurrentEpoch(12))));
}

#[test]
fn unclaimed_fee_substate() {
    let id = VirtualSubstateId::UnclaimedValidatorFee { epoch: 5, address: key(2) };
    match read_for_address(&id) {
        VirtualSubstateRead::TotalDueForEpoch { epoch, public_key } => {
            assert_eq!(epoch, 5);
            assert_eq!(public_key.bytes, vec![2; 4]);
        },
        _ => panic!("expected a fee read"),
    }
    match generate_for_address(&id, Ok(0)) {
        Ok(VirtualSubstate::UnclaimedValidatorFee(c)) => {
            assert_eq!(c.amount, 0);
            assert_eq!(c.epoch, 5);
        },
        _ => panic!("expected a fee claim"),
    }
}

#[test]
fn failed_read_fails_the_substate() {
    let id = VirtualSubstateId::CurrentEpoch;
    let r = generate_for_address(&id, Err(VirtualSubstateError::EpochManagerError("down".to_string())));
    assert!(matches!(r, Err(VirtualSubstateError::EpochManagerError(m)) if m == "down"));
}

#[test]
fn claims_become_virtual_substates() {
    let claims = vec![(1u64, key(1)), (2u64, key(1))];
    let substates = get_virtual_substates(&claims, vec![Ok(10), Ok(20)]).unwrap();
    match substates.get(&VirtualSubstateId::UnclaimedValidatorFee { epoch: 2, address: key(1) }) {
        Some(VirtualSubstate::UnclaimedValidatorFee(c)) => assert_eq!(c.amount, 20),
        _ => panic!("expected the claim for epoch 2"),
    }
    assert!(substates.get(&VirtualSubstateId::UnclaimedValidatorFee { epoch: 3, address: key(1) }).is_none());
    assert!(substates.get(&VirtualSubstateId::CurrentEpoch).is_none());
}

#[test]
fn later_claim_for_the_same_validator_and_epoch_replaces_the_earlier() {
    let claims = vec![(4u64, key(9)), (4u64, key(9))];
    let substates = get_virtual_substates(&claims, vec![Ok(1), Ok(2)]).unwrap();
    match substates.get(&VirtualSubstateId::UnclaimedValidatorFee { epoch: 4, address: key(9) }) {
        Some(VirtualSubstate::UnclaimedValidatorFee(c)) => assert_eq!(c.amount, 2),
        _ => panic!("expected the claim"),
    }
}

#[test]
fn first_storage_error_fails_the_claims() {
    let claims = vec![(1u64, key(1)), (2u64, key(2)), (3u64, key(3))];
    let r = get_virtual_substates(
        &claims,
        vec![
            Ok(10),
            Err(VirtualSubstateError::StorageError("first".to_string())),
            Err(VirtualSubstateError::StorageError("second".to_string())),
        ],
    );
    assert!(matches!(r, Err(VirtualSubstateError::StorageError(m)) if m == "first"));
}
