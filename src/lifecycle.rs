//! The transitions of a single record: claiming it, committing to a hash, and
//! revealing the secret behind the commitment. Each takes the record as loaded
//! (or nothing, where none is stored) and gives the record to store back.

use vstd::prelude::*;
use crate::bytes::{bytes_eq, is_zero, zeros};
use crate::error::AttestationError;
use crate::hash::{keccak256, keccak256_of};
use crate::registry::AttestatorRegistry;
use crate::store::user_opt_view;
use crate::user::{copy_bytes, zero_bytes, User, UserView, HASH_LEN};
use crate::value_state::ValueState;

verus! {

/// Whether an address or hash is all zero, that is, not set.
pub open spec fn unset(a: Seq<u8>) -> bool {
    forall|j: int| 0 <= j < a.len() ==> a[j] == 0
}

/// Heights gone by from `last` to `now`; none where the clock reads earlier.
pub open spec fn elapsed(now: u64, last: u64) -> int {
    if now >= last {
        now - last
    } else {
        0
    }
}

/// A record that nobody has claimed yet, as first seen at height `now`.
pub open spec fn fresh_record(now: u64) -> UserView {
    UserView {
        value_state: ValueState::Absent,
        public_info: zero_bytes(),
        private_info: Seq::empty(),
        address: zero_bytes(),
        attester: zero_bytes(),
        nonce: now,
    }
}

/// Whether `rec` belongs to a user other than `caller`.
pub open spec fn claimed_by_other(rec: UserView, caller: Seq<u8>) -> bool {
    !unset(rec.address) && rec.address != caller
}

/// Whether `caller` may register over `rec`: it is not approved, and if
/// another user holds it, that user's window has run out.
pub open spec fn overwrite_check(rec: UserView, caller: Seq<u8>, window: u64, now: u64) -> Result<
    (),
    AttestationError,
> {
    if rec.value_state is Approved {
        Err(AttestationError::AlreadyApproved)
    } else if claimed_by_other(rec, caller) && elapsed(now, rec.nonce) < window {
        Err(AttestationError::RecordBusy)
    } else {
        Ok(())
    }
}

/// The outcome of a registration by `caller` paying `payment`, where
/// `selected` is the attestator a record without one is bound to.
///
/// A record taken over from another user is started afresh. Otherwise the
/// record keeps its commitment and attestator, and a pending record stays
/// pending; any other becomes requested.
pub open spec fn register_outcome(
    rec: Option<UserView>,
    caller: Seq<u8>,
    payment: u128,
    cost: u128,
    window: u64,
    now: u64,
    selected: Seq<u8>,
) -> Result<UserView, AttestationError> {
    let base = match rec {
        Some(u) => u,
        None => fresh_record(now),
    };
    if payment != cost {
        Err(AttestationError::WrongPayment)
    } else if overwrite_check(base, caller, window, now) is Err {
        Err(overwrite_check(base, caller, window, now)->Err_0)
    } else {
        let start = if claimed_by_other(base, caller) {
            fresh_record(now)
        } else {
            base
        };
        Ok(
            UserView {
                value_state: if start.value_state is Pending {
                    ValueState::Pending
                } else {
                    ValueState::Requested
                },
                address: caller,
                attester: if unset(start.attester) {
                    selected
                } else {
                    start.attester
                },
                nonce: now,
                ..start
            },
        )
    }
}

/// The outcome of `caller` committing to `commitment` for `rec`.
pub open spec fn save_outcome(
    rec: Option<UserView>,
    caller: Seq<u8>,
    caller_is_attestator: bool,
    commitment: Seq<u8>,
    window: u64,
    now: u64,
) -> Result<UserView, AttestationError> {
    if !caller_is_attestator {
        Err(AttestationError::NotAttestator)
    } else {
        match rec {
            None => Err(AttestationError::NoSuchRecord),
            Some(u) => if u.value_state is Approved {
                Err(AttestationError::AlreadyApproved)
            } else if !unset(u.attester) && u.attester != caller {
                Err(AttestationError::WrongVerifier)
            } else if elapsed(now, u.nonce) > window {
                Err(AttestationError::ExpiredWindow)
            } else {
                Ok(
                    UserView {
                        value_state: ValueState::Pending,
                        public_info: commitment,
                        nonce: now,
                        ..u
                    },
                )
            },
        }
    }
}

/// The outcome of `caller` revealing `secret`, whose hash is `secret_hash`.
pub open spec fn confirm_outcome(
    rec: Option<UserView>,
    caller: Seq<u8>,
    secret: Seq<u8>,
    secret_hash: Seq<u8>,
    window: u64,
    now: u64,
) -> Result<UserView, AttestationError> {
    match rec {
        None => Err(AttestationError::NoSuchRecord),
        Some(u) => if !(u.value_state is Pending) {
            Err(AttestationError::NotPending)
        } else if u.address != caller {
            Err(AttestationError::Unauthorized)
        } else if secret_hash != u.public_info {
            Err(AttestationError::HashMismatch)
        } else if elapsed(now, u.nonce) > window {
            Err(AttestationError::ExpiredWindow)
        } else {
            Ok(
                UserView {
                    value_state: ValueState::Approved,
                    private_info: secret,
                    nonce: now,
                    ..u
                },
            )
        },
    }
}

/// What a lookup of the user behind a record comes to: the record's owner,
/// once it is approved.
pub open spec fn public_key_outcome(rec: Option<UserView>) -> Result<Seq<u8>, AttestationError> {
    match rec {
        None => Err(AttestationError::NoSuchRecord),
        Some(u) => if u.value_state is Approved {
            Ok(u.address)
        } else {
            Err(AttestationError::NotApproved)
        },
    }
}

/// Whether a record that may be absent has fields of their fixed lengths.
pub open spec fn wf_opt(rec: Option<UserView>) -> bool {
    rec matches Some(u) ==> u.wf()
}

/// A transition's result, as plain values.
pub open spec fn outcome_view(r: Result<User, AttestationError>) -> Result<
    UserView,
    AttestationError,
> {
    match r {
        Ok(u) => Ok(u@),
        Err(e) => Err(e),
    }
}

/// Heights gone by from `last` to `now`; none where the clock reads earlier.
pub fn elapsed_since(now: u64, last: u64) -> (r: u64)
    ensures
        r == elapsed(now, last),
{
    if now >= last {
        now - last
    } else {
        0
    }
}

/// A record that nobody has claimed yet, as first seen at height `now`.
pub fn new_record(now: u64) -> (r: User)
    ensures
        r@ == fresh_record(now),
{
    User {
        value_state: ValueState::Absent,
        public_info: zeros(HASH_LEN),
        private_info: Vec::new(),
        address: zeros(HASH_LEN),
        attester: zeros(HASH_LEN),
        nonce: now,
    }
}

/// Whether `caller` may register over `record` at height `now`.
pub fn can_overwrite_user_data(record: &User, caller: &Vec<u8>, window: u64, now: u64) -> (r:
    Result<(), AttestationError>)
    ensures
        r == overwrite_check(record@, caller@, window, now),
{
    if record.value_state == ValueState::Approved {
        return Err(AttestationError::AlreadyApproved);
    }
    let other = !is_zero(record.address.as_slice()) && !bytes_eq(
        record.address.as_slice(),
        caller.as_slice(),
    );
    if other && elapsed_since(now, record.nonce) < window {
        return Err(AttestationError::RecordBusy);
    }
    Ok(())
}

/// Registers `caller` for the record as loaded, paying `payment` against the
/// registration cost `cost`, at height `now`.
pub fn register_record(
    record: Option<User>,
    caller: &Vec<u8>,
    payment: u128,
    cost: u128,
    window: u64,
    now: u64,
    attestators: &AttestatorRegistry,
) -> (r: Result<User, AttestationError>)
    requires
        attestators.wf(),
        caller@.len() == HASH_LEN,
    ensures
        wf_opt(user_opt_view(record)) && r is Ok ==> r->Ok_0@.wf(),
        outcome_view(r) == register_outcome(
            user_opt_view(record),
            caller@,
            payment,
            cost,
            window,
            now,
            attestators@.last(),
        ),
{
    if payment != cost {
        return Err(AttestationError::WrongPayment);
    }
    let base = match record {
        Some(u) => u,
        None => new_record(now),
    };
    match can_overwrite_user_data(&base, caller, window, now) {
        Ok(()) => {},
        Err(e) => {
            return Err(e);
        },
    }
    let other = !is_zero(base.address.as_slice()) && !bytes_eq(
        base.address.as_slice(),
        caller.as_slice(),
    );
    let start = if other {
        new_record(now)
    } else {
        base
    };
    let value_state = if start.value_state == ValueState::Pending {
        ValueState::Pending
    } else {
        ValueState::Requested
    };
    let attester = if is_zero(start.attester.as_slice()) {
        attestators.select()
    } else {
        start.attester
    };
    Ok(
        User {
            value_state,
            public_info: start.public_info,
            private_info: start.private_info,
            address: copy_bytes(caller),
            attester,
            nonce: now,
        },
    )
}

/// `caller`, an attestator if `attestators` says so, commits the record as
/// loaded to `commitment` at height `now`.
pub fn save_attestation_record(
    record: Option<User>,
    caller: &Vec<u8>,
    commitment: &Vec<u8>,
    window: u64,
    now: u64,
    attestators: &AttestatorRegistry,
) -> (r: Result<User, AttestationError>)
    requires
        commitment@.len() == HASH_LEN,
    ensures
        wf_opt(user_opt_view(record)) && r is Ok ==> r->Ok_0@.wf(),
        outcome_view(r) == save_outcome(
            user_opt_view(record),
            caller@,
            attestators@.contains(caller@),
            commitment@,
            window,
            now,
        ),
{
    if !attestators.contains(caller) {
        return Err(AttestationError::NotAttestator);
    }
    let u = match record {
        Some(u) => u,
        None => {
            return Err(AttestationError::NoSuchRecord);
        },
    };
    if u.value_state == ValueState::Approved {
        return Err(AttestationError::AlreadyApproved);
    }
    if !is_zero(u.attester.as_slice()) && !bytes_eq(u.attester.as_slice(), caller.as_slice()) {
        return Err(AttestationError::WrongVerifier);
    }
    if elapsed_since(now, u.nonce) > window {
        return Err(AttestationError::ExpiredWindow);
    }
    Ok(
        User {
            value_state: ValueState::Pending,
            public_info: copy_bytes(commitment),
            private_info: u.private_info,
            address: u.address,
            attester: u.attester,
            nonce: now,
        },
    )
}

/// `caller` reveals `secret`, whose hash is `secret_hash`, for the record as
/// loaded, at height `now`.
pub fn confirm_with_hash(
    record: Option<User>,
    caller: &Vec<u8>,
    secret: Vec<u8>,
    secret_hash: &Vec<u8>,
    window: u64,
    now: u64,
) -> (r: Result<User, AttestationError>)
    requires
        secret@.len() <= u32::MAX,
    ensures
        wf_opt(user_opt_view(record)) && r is Ok ==> r->Ok_0@.wf(),
        outcome_view(r) == confirm_outcome(
            user_opt_view(record),
            caller@,
            secret@,
            secret_hash@,
            window,
            now,
        ),
{
    let u = match record {
        Some(u) => u,
        None => {
            return Err(AttestationError::NoSuchRecord);
        },
    };
    if u.value_state != ValueState::Pending {
        return Err(AttestationError::NotPending);
    }
    if !bytes_eq(u.address.as_slice(), caller.as_slice()) {
        return Err(AttestationError::Unauthorized);
    }
    if !bytes_eq(secret_hash.as_slice(), u.public_info.as_slice()) {
        return Err(AttestationError::HashMismatch);
    }
    if elapsed_since(now, u.nonce) > window {
        return Err(AttestationError::ExpiredWindow);
    }
    Ok(
        User {
            value_state: ValueState::Approved,
            public_info: u.public_info,
            private_info: secret,
            address: u.address,
            attester: u.attester,
            nonce: now,
        },
    )
}

/// `caller` reveals `secret` for the record as loaded, at height `now`; the
/// secret is accepted when its Keccak-256 digest is the stored commitment.
pub fn confirm_record(
    record: Option<User>,
    caller: &Vec<u8>,
    secret: Vec<u8>,
    window: u64,
    now: u64,
) -> (r: Result<User, AttestationError>)
    requires
        secret@.len() <= u32::MAX,
    ensures
        wf_opt(user_opt_view(record)) && r is Ok ==> r->Ok_0@.wf(),
        outcome_view(r) == confirm_outcome(
            user_opt_view(record),
            caller@,
            secret@,
            keccak256_of(secret@),
            window,
            now,
        ),
{
    let secret_hash = keccak256(secret.as_slice());
    confirm_with_hash(record, caller, secret, &secret_hash, window, now)
}

/// The address of the user behind the record as loaded, once it is approved.
pub fn public_key_of(record: Option<User>) -> (r: Result<Vec<u8>, AttestationError>)
    ensures
        match r {
            Ok(a) => public_key_outcome(user_opt_view(record)) == Ok::<Seq<u8>, AttestationError>(a@),
            Err(e) => public_key_outcome(user_opt_view(record)) == Err::<Seq<u8>, AttestationError>(e),
        },
{
    match record {
        None => Err(AttestationError::NoSuchRecord),
        Some(u) => {
            if u.value_state != ValueState::Approved {
                return Err(AttestationError::NotApproved);
            }
            Ok(u.address)
        },
    }
}

} // verus!
