use attestation::{DecodeError, ValueState};

#[test]
fn is_present_only_for_set_states() {
    assert!(!ValueState::Absent.is_present());
    assert!(ValueState::Requested.is_present());
    assert!(ValueState::Pending.is_present());
    assert!(ValueState::Approved.is_present());
}

#[test]
fn bytes_of_states() {
    assert_eq!(ValueState::Absent.to_u8(), 0);
    assert_eq!(ValueState::Requested.to_u8(), 1);
    assert_eq!(ValueState::Pending.to_u8(), 2);
    assert_eq!(ValueState::Approved.to_u8(), 3);
}

#[test]
fn from_u8_accepts_the_four_states() {
    assert_eq!(ValueState::from_u8(0), Ok(ValueState::Absent));
    assert_eq!(ValueState::from_u8(1), Ok(ValueState::Requested));
    assert_eq!(ValueState::from_u8(2), Ok(ValueState::Pending));
    assert_eq!(ValueState::from_u8(3), Ok(ValueState::Approved));
}

#[test]
fn from_u8_rejects_bytes_above_three() {
    assert_eq!(ValueState::from_u8(4), Err(DecodeError::InvalidValue));
    assert_eq!(ValueState::from_u8(255), Err(DecodeError::InvalidValue));
}

#[test]
fn top_encoding_drops_the_zero_byte() {
    assert_eq!(ValueState::Absent.top_encode(), Vec::<u8>::new());
    assert_eq!(ValueState::Requested.top_encode(), vec![1u8]);
    assert_eq!(ValueState::Approved.top_encode(), vec![3u8]);
}

#[test]
fn top_decode_round_trip() {
    for v in [ValueState::Absent, ValueState::Requested, ValueState::Pending, ValueState::Approved] {
        let bytes = v.top_encode();
        assert_eq!(ValueState::top_decode(&bytes), Ok(v));
    }
}

#[test]
fn top_decode_leading_zeros_and_errors() {
    assert_eq!(ValueState::top_decode(&[0, 0, 2]), Ok(ValueState::Pending));
    assert_eq!(ValueState::top_decode(&[7]), Err(DecodeError::InvalidValue));
    assert_eq!(ValueState::top_decode(&[1, 0]), Err(DecodeError::InputTooLong));
    assert_eq!(ValueState::top_decode(&[0; 9]), Err(DecodeError::InputTooLong));
}

#[test]
fn nested_encoding_round_trip() {
    let mut out = vec![9u8];
    ValueState::Pending.dep_encode_to(&mut out);
    assert_eq!(out, vec![9u8, 2]);
    let mut pos: usize = 1;
    assert_eq!(ValueState::dep_decode(&out, &mut pos), Ok(ValueState::Pending));
    assert_eq!(pos, 2);
    assert_eq!(ValueState::dep_decode(&out, &mut pos), Err(DecodeError::InputTooShort));
    let mut start: usize = 0;
    assert_eq!(ValueState::dep_decode(&[5], &mut start), Err(DecodeError::InvalidValue));
}
