//! The lifecycle tag of a record, and of an attestator's membership.

use vstd::prelude::*;
use crate::codec::DecodeError;

verus! {

/// Where a record stands: `Absent` before anything, `Requested` once a slot is
/// claimed, `Pending` once a commitment is stored, `Approved` once the secret
/// behind the commitment has been revealed.
#[derive(Clone, Copy, Debug, PartialEq, Eq, Structural)]
pub enum ValueState {
    Absent,
    Requested,
    Pending,
    Approved,
}

impl ValueState {
    /// The single byte that stands for the state; it also orders the phases.
    pub open spec fn byte(self) -> u8 {
        match self {
            ValueState::Absent => 0,
            ValueState::Requested => 1,
            ValueState::Pending => 2,
            ValueState::Approved => 3,
        }
    }

    /// The state that a byte stands for.
    pub open spec fn from_byte(b: u8) -> Result<ValueState, DecodeError> {
        if b == 0 {
            Ok(ValueState::Absent)
        } else if b == 1 {
            Ok(ValueState::Requested)
        } else if b == 2 {
            Ok(ValueState::Pending)
        } else if b == 3 {
            Ok(ValueState::Approved)
        } else {
            Err(DecodeError::InvalidValue)
        }
    }

    /// The stand-alone encoding: the byte as a number with no leading zeros,
    /// so `Absent` is the empty sequence.
    pub open spec fn top_bytes(self) -> Seq<u8> {
        if self is Absent {
            Seq::empty()
        } else {
            seq![self.byte()]
        }
    }

    /// Reads a stand-alone encoding: a big-endian number of at most eight
    /// bytes, which must fit in one byte and name a state.
    pub open spec fn top_decode_spec(s: Seq<u8>) -> Result<ValueState, DecodeError> {
        if s.len() > 8 {
            Err(DecodeError::InputTooLong)
        } else if exists|i: int| 0 <= i < s.len() - 1 && s[i] != 0 {
            Err(DecodeError::InputTooLong)
        } else if s.len() == 0 {
            Self::from_byte(0)
        } else {
            Self::from_byte(s.last())
        }
    }

    /// Whether a record or a membership has been set up at all.
    pub fn is_present(&self) -> (r: bool)
        ensures
            r == !(*self is Absent),
    {
        match self {
            ValueState::Absent => false,
            _ => true,
        }
    }

    pub fn to_u8(&self) -> (r: u8)
        ensures
            r == self.byte(),
    {
        match self {
            ValueState::Absent => 0,
            ValueState::Requested => 1,
            ValueState::Pending => 2,
            ValueState::Approved => 3,
        }
    }

    pub fn from_u8(v: u8) -> (r: Result<ValueState, DecodeError>)
        ensures
            r == Self::from_byte(v),
    {
        match v {
            0 => Ok(ValueState::Absent),
            1 => Ok(ValueState::Requested),
            2 => Ok(ValueState::Pending),
            3 => Ok(ValueState::Approved),
            _ => Err(DecodeError::InvalidValue),
        }
    }

    /// Appends the state's byte, as it stands inside a larger encoding.
    pub fn dep_encode_to(&self, dest: &mut Vec<u8>)
        ensures
            final(dest)@ == old(dest)@.push(self.byte()),
    {
        dest.push(self.to_u8());
    }

    /// Reads a state's byte at `*pos` and moves past it.
    pub fn dep_decode(input: &[u8], pos: &mut usize) -> (r: Result<ValueState, DecodeError>)
        requires
            *old(pos) <= input@.len(),
        ensures
            *old(pos) < input@.len() ==> r == Self::from_byte(input@[*old(pos) as int])
                && *final(pos) == *old(pos) + 1,
            *old(pos) == input@.len() ==> r == Err::<ValueState, DecodeError>(
                DecodeError::InputTooShort,
            ),
    {
        if *pos >= input.len() {
            return Err(DecodeError::InputTooShort);
        }
        let b = input[*pos];
        *pos = *pos + 1;
        ValueState::from_u8(b)
    }

    /// The stand-alone encoding of the state.
    pub fn top_encode(&self) -> (r: Vec<u8>)
        ensures
            r@ == self.top_bytes(),
    {
        let mut r: Vec<u8> = Vec::new();
        if self.is_present() {
            r.push(self.to_u8());
        }
        assert(r@ =~= self.top_bytes());
        r
    }

    /// Reads a stand-alone encoding of a state.
    pub fn top_decode(input: &[u8]) -> (r: Result<ValueState, DecodeError>)
        ensures
            r == Self::top_decode_spec(input@),
    {
        let n = input.len();
        if n > 8 {
            return Err(DecodeError::InputTooLong);
        }
        if n == 0 {
            return ValueState::from_u8(0);
        }
        let mut i: usize = 0;
        while i < n - 1
            invariant
                n == input@.len(),
                1 <= n <= 8,
                i <= n - 1,
                forall|j: int| 0 <= j < i ==> input@[j] == 0,
            decreases n - 1 - i,
        {
            if input[i] != 0 {
                return Err(DecodeError::InputTooLong);
            }
            i = i + 1;
        }
        ValueState::from_u8(input[n - 1])
    }
}

/// Decoding gives back every state from its stand-alone encoding and from its
/// byte inside a larger encoding, and no byte above 3 names a state.
pub proof fn lemma_value_state_round_trip(v: ValueState, b: u8)
    ensures
        ValueState::top_decode_spec(v.top_bytes()) == Ok::<ValueState, DecodeError>(v),
        ValueState::from_byte(v.byte()) == Ok::<ValueState, DecodeError>(v),
        b > 3 ==> ValueState::from_byte(b) == Err::<ValueState, DecodeError>(
            DecodeError::InvalidValue,
        ),
        b > 3 ==> ValueState::top_decode_spec(seq![b]) == Err::<ValueState, DecodeError>(
            DecodeError::InvalidValue,
        ),
{
    assert(!(exists|i: int| 0 <= i < seq![b].len() - 1 && seq![b][i] != 0));
}

} // verus!
