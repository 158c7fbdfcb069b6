//! The attestation record kept for each obfuscated key, and its byte encoding.

use vstd::prelude::*;
use crate::codec::{
    DecodeError, nested_buffer, push_bytes, push_nested_buffer, push_u64, read_bytes, read_u32,
    read_u64, u32_be, u32_from_be, u64_be, u64_from_be, lemma_u32_round_trip, lemma_u64_round_trip,
    lemma_u32_canonical, lemma_u64_canonical,
};
use crate::value_state::ValueState;

verus! {

/// Length of a hash, of an address and of an obfuscated key.
pub const HASH_LEN: usize = 32;

/// The record stored under an obfuscated key.
pub struct User {
    /// The record's phase.
    pub value_state: ValueState,
    /// The commitment: hash of the secret to be revealed; all zero until set.
    pub public_info: Vec<u8>,
    /// The revealed secret; empty until approved.
    pub private_info: Vec<u8>,
    /// The user who claimed the slot; all zero while unclaimed.
    pub address: Vec<u8>,
    /// The attestator assigned to the record; all zero while unassigned.
    pub attester: Vec<u8>,
    /// Block height of the most recent state-changing write.
    pub nonce: u64,
}

/// A record as plain values.
pub ghost struct UserView {
    pub value_state: ValueState,
    pub public_info: Seq<u8>,
    pub private_info: Seq<u8>,
    pub address: Seq<u8>,
    pub attester: Seq<u8>,
    pub nonce: u64,
}

impl View for User {
    type V = UserView;

    open spec fn view(&self) -> UserView {
        UserView {
            value_state: self.value_state,
            public_info: self.public_info@,
            private_info: self.private_info@,
            address: self.address@,
            attester: self.attester@,
            nonce: self.nonce,
        }
    }
}

/// The all-zero address or hash, which stands for "not set".
pub open spec fn zero_bytes() -> Seq<u8> {
    Seq::new(HASH_LEN as nat, |i: int| 0u8)
}

impl UserView {
    /// Hash and address fields have their fixed length, and the secret's length
    /// fits the four-byte prefix of the encoding.
    pub open spec fn wf(self) -> bool {
        &&& self.public_info.len() == HASH_LEN
        &&& self.address.len() == HASH_LEN
        &&& self.attester.len() == HASH_LEN
        &&& self.private_info.len() <= u32::MAX
    }

    /// The stored encoding: the state's byte, the commitment, the secret with
    /// its length, the two addresses, and the height in eight bytes.
    pub open spec fn encoding(self) -> Seq<u8> {
        seq![self.value_state.byte()] + self.public_info + nested_buffer(self.private_info)
            + self.address + self.attester + u64_be(self.nonce)
    }
}

/// Where the secret starts in an encoding: after the state, the commitment and
/// the length prefix.
pub open spec fn secret_start() -> int {
    1 + HASH_LEN + 4
}

/// Reads a record at the start of `s`, field by field, failing at the first
/// field that is cut short or invalid; gives the record and the number of
/// bytes it took.
pub open spec fn decode_user_prefix(s: Seq<u8>) -> Result<(UserView, int), DecodeError> {
    if s.len() < 1 {
        Err(DecodeError::InputTooShort)
    } else if ValueState::from_byte(s[0]) is Err {
        Err(DecodeError::InvalidValue)
    } else if s.len() < secret_start() {
        Err(DecodeError::InputTooShort)
    } else {
        let n = u32_from_be(s.subrange(1 + HASH_LEN, secret_start())) as int;
        let end = secret_start() + n + 2 * HASH_LEN + 8;
        if s.len() < end {
            Err(DecodeError::InputTooShort)
        } else {
            let a = secret_start() + n;
            Ok(
                (
                    UserView {
                        value_state: ValueState::from_byte(s[0])->Ok_0,
                        public_info: s.subrange(1, 1 + HASH_LEN),
                        private_info: s.subrange(secret_start(), a),
                        address: s.subrange(a, a + HASH_LEN),
                        attester: s.subrange(a + HASH_LEN, a + 2 * HASH_LEN),
                        nonce: u64_from_be(s.subrange(a + 2 * HASH_LEN, end)),
                    },
                    end,
                ),
            )
        }
    }
}

/// Reads a record from its stored encoding, which must hold nothing after it.
pub open spec fn decode_user(s: Seq<u8>) -> Result<UserView, DecodeError> {
    match decode_user_prefix(s) {
        Err(e) => Err(e),
        Ok((u, end)) => if s.len() > end {
            Err(DecodeError::InputTooLong)
        } else {
            Ok(u)
        },
    }
}

/// What a decoding result says, as plain values.
pub open spec fn decoded_view(r: Result<User, DecodeError>) -> Result<UserView, DecodeError> {
    match r {
        Ok(u) => Ok(u@),
        Err(e) => Err(e),
    }
}

/// Copies a byte vector.
pub fn copy_bytes(b: &Vec<u8>) -> (r: Vec<u8>)
    ensures
        r@ == b@,
{
    let r = b.clone();
    assert(r@ =~= b@);
    r
}

impl User {
    /// A copy of the record.
    pub fn copy(&self) -> (r: User)
        ensures
            r@ == self@,
    {
        User {
            value_state: self.value_state,
            public_info: copy_bytes(&self.public_info),
            private_info: copy_bytes(&self.private_info),
            address: copy_bytes(&self.address),
            attester: copy_bytes(&self.attester),
            nonce: self.nonce,
        }
    }

    /// Appends the record's encoding.
    pub fn dep_encode_to(&self, dest: &mut Vec<u8>)
        requires
            self@.private_info.len() <= u32::MAX,
        ensures
            final(dest)@ == old(dest)@ + self@.encoding(),
    {
        self.value_state.dep_encode_to(dest);
        push_bytes(dest, self.public_info.as_slice());
        push_nested_buffer(dest, self.private_info.as_slice());
        push_bytes(dest, self.address.as_slice());
        push_bytes(dest, self.attester.as_slice());
        push_u64(dest, self.nonce);
        assert(dest@ =~= old(dest)@ + self@.encoding());
    }

    /// The record's stored encoding.
    pub fn top_encode(&self) -> (r: Vec<u8>)
        requires
            self@.private_info.len() <= u32::MAX,
        ensures
            r@ == self@.encoding(),
    {
        let mut r: Vec<u8> = Vec::new();
        self.dep_encode_to(&mut r);
        assert(r@ =~= self@.encoding());
        r
    }

    /// Reads a record at `*pos`, inside a larger encoding, and moves past it.
    pub fn dep_decode(input: &[u8], pos: &mut usize) -> (r: Result<User, DecodeError>)
        requires
            *old(pos) <= input@.len(),
        ensures
            ({
                let s = input@.subrange(*old(pos) as int, input@.len() as int);
                match decode_user_prefix(s) {
                    Ok((u, n)) => r is Ok && r->Ok_0@ == u && *final(pos) == *old(pos) + n,
                    Err(e) => r == Err::<User, DecodeError>(e),
                }
            }),
    {
        let ghost start = *pos as int;
        let ghost s = input@.subrange(start, input@.len() as int);
        let value_state = match ValueState::dep_decode(input, pos) {
            Ok(v) => v,
            Err(e) => {
                return Err(e);
            },
        };
        let public_info = match read_bytes(input, pos, HASH_LEN) {
            Ok(b) => b,
            Err(e) => {
                return Err(e);
            },
        };
        let n = match read_u32(input, pos) {
            Ok(n) => n,
            Err(e) => {
                return Err(e);
            },
        };
        assert(s.subrange(1 + HASH_LEN, secret_start()) =~= input@.subrange(
            start + 1 + HASH_LEN,
            start + secret_start(),
        ));
        let private_info = match read_bytes(input, pos, n as usize) {
            Ok(b) => b,
            Err(e) => {
                return Err(e);
            },
        };
        let address = match read_bytes(input, pos, HASH_LEN) {
            Ok(b) => b,
            Err(e) => {
                return Err(e);
            },
        };
        let attester = match read_bytes(input, pos, HASH_LEN) {
            Ok(b) => b,
            Err(e) => {
                return Err(e);
            },
        };
        let nonce = match read_u64(input, pos) {
            Ok(n) => n,
            Err(e) => {
                return Err(e);
            },
        };
        let ghost a = secret_start() + n;
        let ghost end = a + 2 * HASH_LEN + 8;
        assert(s.subrange(1, 1 + HASH_LEN) =~= public_info@);
        assert(s.subrange(secret_start(), a) =~= private_info@);
        assert(s.subrange(a, a + HASH_LEN) =~= address@);
        assert(s.subrange(a + HASH_LEN, a + 2 * HASH_LEN) =~= attester@);
        assert(s.subrange(a + 2 * HASH_LEN, end) =~= input@.subrange(
            start + a + 2 * HASH_LEN,
            start + end,
        ));
        Ok(User { value_state, public_info, private_info, address, attester, nonce })
    }

    /// Reads a record from its stored encoding.
    pub fn top_decode(input: &[u8]) -> (r: Result<User, DecodeError>)
        ensures
            decoded_view(r) == decode_user(input@),
            r is Ok ==> r->Ok_0@.wf(),
    {
        let mut pos: usize = 0;
        let r = User::dep_decode(input, &mut pos);
        assert(input@.subrange(0, input@.len() as int) =~= input@);
        match r {
            Ok(u) => {
                if pos < input.len() {
                    return Err(DecodeError::InputTooLong);
                }
                proof {
                    lemma_user_encoding_canonical(input@);
                }
                Ok(u)
            },
            Err(e) => Err(e),
        }
    }
}

/// Decoding an encoding gives the record back, for every record whose fields
/// have their fixed lengths.
pub proof fn lemma_user_round_trip(u: UserView)
    requires
        u.wf(),
    ensures
        decode_user(u.encoding()) == Ok::<UserView, DecodeError>(u),
{
    let s = u.encoding();
    let n = u.private_info.len() as u32;
    lemma_u32_round_trip(n);
    lemma_u64_round_trip(u.nonce);
    let a = secret_start() + n;
    assert(s.subrange(1 + HASH_LEN, secret_start()) =~= u32_be(n));
    assert(s.subrange(1, 1 + HASH_LEN) =~= u.public_info);
    assert(s.subrange(secret_start(), a) =~= u.private_info);
    assert(s.subrange(a, a + HASH_LEN) =~= u.address);
    assert(s.subrange(a + HASH_LEN, a + 2 * HASH_LEN) =~= u.attester);
    assert(s.subrange(a + 2 * HASH_LEN, a + 2 * HASH_LEN + 8) =~= u64_be(u.nonce));
}

/// An encoding whose first byte names no state is refused as invalid.
pub proof fn lemma_user_rejects_unknown_state(s: Seq<u8>)
    requires
        s.len() > 0,
        s[0] > 3,
    ensures
        decode_user(s) == Err::<UserView, DecodeError>(DecodeError::InvalidValue),
{
}

/// Every sequence that decodes is the encoding of what it decodes to, so
/// encoding a decoded record and decoding again changes nothing.
pub proof fn lemma_user_encoding_canonical(s: Seq<u8>)
    requires
        decode_user(s) is Ok,
    ensures
        decode_user(s)->Ok_0.wf(),
        decode_user(s)->Ok_0.encoding() == s,
{
    let u = decode_user(s)->Ok_0;
    let p = s.subrange(1 + HASH_LEN, secret_start());
    lemma_u32_canonical(p);
    let n = u32_from_be(p) as int;
    let a = secret_start() + n;
    lemma_u64_canonical(s.subrange(a + 2 * HASH_LEN, a + 2 * HASH_LEN + 8));
    assert(u.private_info.len() == n);
    assert(nested_buffer(u.private_info) =~= p + u.private_info);
    assert(u.encoding() =~= s);
}

} // verus!
