use attestation::engine::claim_transfer;
use attestation::lifecycle::public_key_of;
use attestation::{Attestation, AttestationError, ValueState};
use sha3::{Digest, Keccak256};

fn addr(b: u8) -> Vec<u8> {
    vec![b; 32]
}

fn hash(data: &[u8]) -> Vec<u8> {
    Keccak256::digest(data).to_vec()
}

const OWNER: u8 = 0xee;
const A: u8 = 0xa1;
const B: u8 = 0xb2;
const U: u8 = 0x01;
const V: u8 = 0x02;
const K: u8 = 0x4b;
const H: u64 = 1000;

fn engine() -> Attestation {
    Attestation::init(addr(OWNER), 100, 50, &vec![addr(A)]).unwrap()
}

fn state_of(e: &Attestation, key: &Vec<u8>) -> Option<ValueState> {
    e.get_user_state_endpoint(key).map(|u| u.value_state)
}

/// A record of `U` under `K`, committed by `A` to the hash of "secret" at `H + 1`.
fn pending_engine() -> Attestation {
    let mut e = engine();
    e.register(&addr(K), &addr(U), 100, H).unwrap();
    e.save_attestation(&addr(K), &addr(A), &hash(b"secret"), H + 1).unwrap();
    e
}

#[test]
fn scenario_full_approval() {
    let mut e = engine();
    assert_eq!(e.register(&addr(K), &addr(U), 100, H), Ok(()));
    let u = e.get_user_state_endpoint(&addr(K)).unwrap();
    assert_eq!(u.value_state, ValueState::Requested);
    assert_eq!(u.address, addr(U));
    assert_eq!(u.attester, addr(A));
    assert_eq!(u.nonce, H);
    assert_eq!(e.save_attestation(&addr(K), &addr(A), &hash(b"secret"), H + 1), Ok(()));
    assert_eq!(state_of(&e, &addr(K)), Some(ValueState::Pending));
    assert_eq!(e.confirm_attestation(&addr(K), &addr(U), b"secret".to_vec(), H + 2), Ok(()));
    let u = e.get_user_state_endpoint(&addr(K)).unwrap();
    assert_eq!(u.value_state, ValueState::Approved);
    assert_eq!(u.private_info, b"secret".to_vec());
    assert_eq!(e.get_public_key(&addr(K)), Ok(addr(U)));
}

#[test]
fn scenario_late_confirmation_expires() {
    let mut e = pending_engine();
    assert_eq!(
        e.confirm_attestation(&addr(K), &addr(U), b"secret".to_vec(), H + 1 + 51),
        Err(AttestationError::ExpiredWindow)
    );
    assert_eq!(state_of(&e, &addr(K)), Some(ValueState::Pending));
}

#[test]
fn scenario_sole_attestator_cannot_be_removed() {
    let mut e = engine();
    assert_eq!(e.remove_attestator(&addr(OWNER), &addr(A)), Err(AttestationError::LastAttestator));
    assert!(e.is_attestator(&addr(A)));
    assert_eq!(e.attestator_count(), 1);
}

#[test]
fn confirm_at_window_boundary_succeeds() {
    let mut e = pending_engine();
    assert_eq!(e.confirm_attestation(&addr(K), &addr(U), b"secret".to_vec(), H + 1 + 50), Ok(()));
    assert_eq!(state_of(&e, &addr(K)), Some(ValueState::Approved));
}

#[test]
fn save_at_window_boundary() {
    let mut e = engine();
    e.register(&addr(K), &addr(U), 100, H).unwrap();
    assert_eq!(
        e.save_attestation(&addr(K), &addr(A), &hash(b"x"), H + 51),
        Err(AttestationError::ExpiredWindow)
    );
    assert_eq!(state_of(&e, &addr(K)), Some(ValueState::Requested));
    assert_eq!(e.save_attestation(&addr(K), &addr(A), &hash(b"x"), H + 50), Ok(()));
    assert_eq!(state_of(&e, &addr(K)), Some(ValueState::Pending));
}

#[test]
fn flipped_bit_in_secret_is_a_mismatch() {
    let mut e = pending_engine();
    let mut secret = b"secret".to_vec();
    secret[0] ^= 1;
    assert_eq!(
        e.confirm_attestation(&addr(K), &addr(U), secret, H + 2),
        Err(AttestationError::HashMismatch)
    );
    assert_eq!(state_of(&e, &addr(K)), Some(ValueState::Pending));
}

#[test]
fn commitment_is_keccak256_of_the_secret() {
    let empty_digest: Vec<u8> = vec![
        0xc5, 0xd2, 0x46, 0x01, 0x86, 0xf7, 0x23, 0x3c, 0x92, 0x7e, 0x7d, 0xb2, 0xdc, 0xc7, 0x03,
        0xc0, 0xe5, 0x00, 0xb6, 0x53, 0xca, 0x82, 0x27, 0x3b, 0x7b, 0xfa, 0xd8, 0x04, 0x5d, 0x85,
        0xa4, 0x70,
    ];
    let mut e = engine();
    e.register(&addr(K), &addr(U), 100, H).unwrap();
    e.save_attestation(&addr(K), &addr(A), &empty_digest, H).unwrap();
    assert_eq!(e.confirm_attestation(&addr(K), &addr(U), Vec::new(), H), Ok(()));
}

#[test]
fn secret_equal_to_commitment_is_not_accepted() {
    let mut e = engine();
    let commitment = vec![7u8; 32];
    e.register(&addr(K), &addr(U), 100, H).unwrap();
    e.save_attestation(&addr(K), &addr(A), &commitment, H).unwrap();
    assert_eq!(
        e.confirm_attestation(&addr(K), &addr(U), commitment.clone(), H),
        Err(AttestationError::HashMismatch)
    );
}

#[test]
fn init_needs_an_attestator() {
    assert_eq!(
        Attestation::init(addr(OWNER), 100, 50, &Vec::new()).err(),
        Some(AttestationError::EmptyAttestatorList)
    );
}

#[test]
fn init_keeps_each_attestator_once() {
    let e = Attestation::init(addr(OWNER), 7, 9, &vec![addr(A), addr(B), addr(A)]).unwrap();
    assert_eq!(e.attestator_count(), 2);
    assert_eq!(e.get_registration_cost(), 7);
    assert_eq!(e.get_max_nonce_diff(), 9);
    assert_eq!(e.get_owner(), addr(OWNER));
}

#[test]
fn register_binds_the_last_attestator() {
    let mut e = Attestation::init(addr(OWNER), 100, 50, &vec![addr(A), addr(B)]).unwrap();
    e.register(&addr(K), &addr(U), 100, H).unwrap();
    assert_eq!(e.get_user_state_endpoint(&addr(K)).unwrap().attester, addr(B));
}

#[test]
fn register_needs_the_exact_payment() {
    let mut e = engine();
    assert_eq!(e.register(&addr(K), &addr(U), 99, H), Err(AttestationError::WrongPayment));
    assert_eq!(e.register(&addr(K), &addr(U), 101, H), Err(AttestationError::WrongPayment));
    assert!(e.get_user_state_endpoint(&addr(K)).is_none());
}

#[test]
fn register_over_a_busy_record_fails() {
    let mut e = engine();
    e.register(&addr(K), &addr(U), 100, H).unwrap();
    assert_eq!(e.register(&addr(K), &addr(V), 100, H + 49), Err(AttestationError::RecordBusy));
    assert_eq!(e.get_user_state_endpoint(&addr(K)).unwrap().address, addr(U));
}

#[test]
fn register_over_an_expired_record_starts_afresh() {
    let mut e = pending_engine();
    assert_eq!(e.register(&addr(K), &addr(V), 100, H + 1 + 50), Ok(()));
    let u = e.get_user_state_endpoint(&addr(K)).unwrap();
    assert_eq!(u.value_state, ValueState::Requested);
    assert_eq!(u.address, addr(V));
    assert_eq!(u.public_info, vec![0u8; 32]);
    assert_eq!(u.attester, addr(A));
    assert_eq!(u.nonce, H + 51);
}

#[test]
fn same_user_registering_again_keeps_pending() {
    let mut e = pending_engine();
    assert_eq!(e.register(&addr(K), &addr(U), 100, H + 3), Ok(()));
    let u = e.get_user_state_endpoint(&addr(K)).unwrap();
    assert_eq!(u.value_state, ValueState::Pending);
    assert_eq!(u.public_info, hash(b"secret"));
    assert_eq!(u.nonce, H + 3);
}

#[test]
fn register_over_an_approved_record_fails() {
    let mut e = pending_engine();
    e.confirm_attestation(&addr(K), &addr(U), b"secret".to_vec(), H + 2).unwrap();
    assert_eq!(e.register(&addr(K), &addr(V), 100, H + 500), Err(AttestationError::AlreadyApproved));
    assert_eq!(e.register(&addr(K), &addr(U), 100, H + 3), Err(AttestationError::AlreadyApproved));
}

#[test]
fn save_errors() {
    let mut e = Attestation::init(addr(OWNER), 100, 50, &vec![addr(A), addr(B)]).unwrap();
    assert_eq!(
        e.save_attestation(&addr(K), &addr(U), &hash(b"s"), H),
        Err(AttestationError::NotAttestator)
    );
    assert_eq!(
        e.save_attestation(&addr(K), &addr(A), &hash(b"s"), H),
        Err(AttestationError::NoSuchRecord)
    );
    e.register(&addr(K), &addr(U), 100, H).unwrap();
    assert_eq!(
        e.save_attestation(&addr(K), &addr(A), &hash(b"s"), H),
        Err(AttestationError::WrongVerifier)
    );
    e.save_attestation(&addr(K), &addr(B), &hash(b"s"), H).unwrap();
    e.confirm_attestation(&addr(K), &addr(U), b"s".to_vec(), H).unwrap();
    assert_eq!(
        e.save_attestation(&addr(K), &addr(B), &hash(b"t"), H),
        Err(AttestationError::AlreadyApproved)
    );
}

#[test]
fn confirm_errors() {
    let mut e = engine();
    assert_eq!(
        e.confirm_attestation(&addr(K), &addr(U), b"secret".to_vec(), H),
        Err(AttestationError::NoSuchRecord)
    );
    e.register(&addr(K), &addr(U), 100, H).unwrap();
    assert_eq!(
        e.confirm_attestation(&addr(K), &addr(U), b"secret".to_vec(), H),
        Err(AttestationError::NotPending)
    );
    e.save_attestation(&addr(K), &addr(A), &hash(b"secret"), H).unwrap();
    assert_eq!(
        e.confirm_attestation(&addr(K), &addr(V), b"secret".to_vec(), H),
        Err(AttestationError::Unauthorized)
    );
}

#[test]
fn public_key_only_once_approved() {
    let e = pending_engine();
    assert_eq!(e.get_public_key(&addr(K)), Err(AttestationError::NotApproved));
    assert_eq!(e.get_public_key(&addr(V)), Err(AttestationError::NoSuchRecord));
}

#[test]
fn owner_only_operations() {
    let mut e = engine();
    assert_eq!(e.set_register_cost(&addr(U), 5), Err(AttestationError::NotOwner));
    assert_eq!(e.add_attestator(&addr(U), &addr(B)), Err(AttestationError::NotOwner));
    assert_eq!(e.remove_attestator(&addr(U), &addr(A)), Err(AttestationError::NotOwner));
    assert_eq!(e.claim(&addr(U), 10).err(), Some(AttestationError::NotOwner));
    assert_eq!(e.get_registration_cost(), 100);
    assert_eq!(e.set_register_cost(&addr(OWNER), 5), Ok(()));
    assert_eq!(e.get_registration_cost(), 5);
    let t = e.claim(&addr(OWNER), 10).unwrap();
    assert_eq!(t.to, addr(OWNER));
    assert_eq!(t.amount, 10);
    assert_eq!(t.memo, b"attestation claim".to_vec());
}

#[test]
fn attestator_administration() {
    let mut e = engine();
    assert_eq!(e.add_attestator(&addr(OWNER), &addr(A)), Err(AttestationError::AlreadyAttestator));
    assert_eq!(e.add_attestator(&addr(OWNER), &addr(B)), Ok(()));
    assert_eq!(e.attestator_count(), 2);
    assert_eq!(e.remove_attestator(&addr(OWNER), &addr(U)), Err(AttestationError::NotAttestator));
    assert_eq!(e.remove_attestator(&addr(OWNER), &addr(A)), Ok(()));
    assert!(!e.is_attestator(&addr(A)));
    assert!(e.is_attestator(&addr(B)));
    assert_eq!(e.remove_attestator(&addr(OWNER), &addr(B)), Err(AttestationError::LastAttestator));
    assert_eq!(e.attestator_count(), 1);
}

#[test]
fn phases_only_move_forward() {
    let mut e = engine();
    let order = |s: ValueState| s.to_u8();
    let mut seen = vec![order(ValueState::Absent)];
    e.register(&addr(K), &addr(U), 100, H).unwrap();
    seen.push(order(state_of(&e, &addr(K)).unwrap()));
    let _ = e.confirm_attestation(&addr(K), &addr(U), b"secret".to_vec(), H);
    seen.push(order(state_of(&e, &addr(K)).unwrap()));
    e.save_attestation(&addr(K), &addr(A), &hash(b"secret"), H + 1).unwrap();
    seen.push(order(state_of(&e, &addr(K)).unwrap()));
    e.register(&addr(K), &addr(U), 100, H + 2).unwrap();
    seen.push(order(state_of(&e, &addr(K)).unwrap()));
    e.confirm_attestation(&addr(K), &addr(U), b"secret".to_vec(), H + 3).unwrap();
    seen.push(order(state_of(&e, &addr(K)).unwrap()));
    assert_eq!(seen, vec![0, 1, 1, 2, 2, 3]);
    assert!(seen.windows(2).all(|w| w[0] <= w[1]));
}

#[test]
fn claim_transfer_carries_the_memo() {
    let t = claim_transfer(&addr(B), 12345);
    assert_eq!(t.to, addr(B));
    assert_eq!(t.amount, 12345);
    assert_eq!(t.memo, b"attestation claim".to_vec());
}

#[test]
fn removed_attestator_is_gone_and_not_selected() {
    let mut e = Attestation::init(addr(OWNER), 100, 50, &vec![addr(A), addr(B)]).unwrap();
    e.remove_attestator(&addr(OWNER), &addr(B)).unwrap();
    assert!(!e.is_attestator(&addr(B)));
    e.register(&addr(K), &addr(U), 100, H).unwrap();
    assert_eq!(e.get_user_state_endpoint(&addr(K)).unwrap().attester, addr(A));
}

#[test]
fn public_key_of_a_loaded_record() {
    let mut e = pending_engine();
    assert_eq!(public_key_of(None), Err(AttestationError::NoSuchRecord));
    assert_eq!(
        public_key_of(e.get_user_state_endpoint(&addr(K))),
        Err(AttestationError::NotApproved)
    );
    e.confirm_attestation(&addr(K), &addr(U), b"secret".to_vec(), H + 2).unwrap();
    assert_eq!(public_key_of(e.get_user_state_endpoint(&addr(K))), Ok(addr(U)));
}
