use attestation::{DecodeError, User, ValueState};

fn sample() -> User {
    User {
        value_state: ValueState::Pending,
        public_info: vec![0xab; 32],
        private_info: b"secret".to_vec(),
        address: vec![0x11; 32],
        attester: vec![0x22; 32],
        nonce: 0x0102_0304_0506_0708,
    }
}

fn same(a: &User, b: &User) -> bool {
    a.value_state == b.value_state
        && a.public_info == b.public_info
        && a.private_info == b.private_info
        && a.address == b.address
        && a.attester == b.attester
        && a.nonce == b.nonce
}

#[test]
fn encoding_layout() {
    let bytes = sample().top_encode();
    assert_eq!(bytes.len(), 1 + 32 + 4 + 6 + 32 + 32 + 8);
    assert_eq!(bytes[0], 2);
    assert_eq!(&bytes[1..33], &[0xab; 32][..]);
    assert_eq!(&bytes[33..37], &[0, 0, 0, 6][..]);
    assert_eq!(&bytes[37..43], &b"secret"[..]);
    assert_eq!(&bytes[43..75], &[0x11; 32][..]);
    assert_eq!(&bytes[75..107], &[0x22; 32][..]);
    assert_eq!(&bytes[107..], &[1, 2, 3, 4, 5, 6, 7, 8][..]);
}

#[test]
fn decode_of_encode_gives_the_record() {
    let u = sample();
    let back = User::top_decode(&u.top_encode()).unwrap();
    assert!(same(&u, &back));
}

#[test]
fn encode_of_decode_gives_the_bytes() {
    let bytes = sample().top_encode();
    let back = User::top_decode(&bytes).unwrap();
    assert_eq!(back.top_encode(), bytes);
}

#[test]
fn empty_secret_round_trip() {
    let mut u = sample();
    u.private_info = Vec::new();
    u.value_state = ValueState::Absent;
    let back = User::top_decode(&u.top_encode()).unwrap();
    assert!(same(&u, &back));
}

#[test]
fn decode_rejects_truncated_input() {
    let bytes = sample().top_encode();
    assert_eq!(User::top_decode(&[]).err(), Some(DecodeError::InputTooShort));
    assert_eq!(User::top_decode(&bytes[..bytes.len() - 1]).err(), Some(DecodeError::InputTooShort));
    assert_eq!(User::top_decode(&bytes[..20]).err(), Some(DecodeError::InputTooShort));
}

#[test]
fn decode_rejects_trailing_bytes() {
    let mut bytes = sample().top_encode();
    bytes.push(0);
    assert_eq!(User::top_decode(&bytes).err(), Some(DecodeError::InputTooLong));
}

#[test]
fn decode_rejects_unknown_state() {
    let mut bytes = sample().top_encode();
    bytes[0] = 4;
    assert_eq!(User::top_decode(&bytes).err(), Some(DecodeError::InvalidValue));
}

#[test]
fn nested_decode_stops_after_the_record() {
    let u = sample();
    let mut bytes = vec![0xff, 0xfe];
    u.dep_encode_to(&mut bytes);
    let record_end = bytes.len();
    bytes.extend_from_slice(&[9, 9, 9]);
    let mut pos: usize = 2;
    let back = User::dep_decode(&bytes, &mut pos).unwrap();
    assert!(same(&u, &back));
    assert_eq!(pos, record_end);
    let mut pos: usize = record_end;
    assert_eq!(User::dep_decode(&bytes, &mut pos).err(), Some(DecodeError::InvalidValue));
}
