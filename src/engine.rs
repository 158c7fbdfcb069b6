//! The attestation engine: configuration, attestators and records together,
//! with one method per operation. Each operation loads what it needs, decides,
//! and stores the outcome whole, or changes nothing when it fails.

use vstd::prelude::*;
use crate::bytes::bytes_eq;
use crate::error::AttestationError;
use crate::hash::keccak256_of;
use crate::lifecycle::{
    claimed_by_other, confirm_outcome, public_key_of, confirm_record, elapsed, register_outcome, register_record,
    save_attestation_record, save_outcome,
};
use crate::registry::{address_views, distinct, first_occurrences, AttestatorRegistry};
use crate::store::{lookup, user_opt_view, RecordStore};
use crate::user::{copy_bytes, User, UserView, HASH_LEN};
use crate::value_state::ValueState;

verus! {

/// A value transfer for the host to carry out.
pub struct Transfer {
    /// The receiving address.
    pub to: Vec<u8>,
    /// The amount to send.
    pub amount: u128,
    /// The note sent along with the amount.
    pub memo: Vec<u8>,
}

/// The note of a claim transfer: the ASCII bytes of "attestation claim".
pub open spec fn claim_memo() -> Seq<u8> {
    seq![
        97u8, 116u8, 116u8, 101u8, 115u8, 116u8, 97u8, 116u8, 105u8, 111u8, 110u8, 32u8, 99u8,
        108u8, 97u8, 105u8, 109u8,
    ]
}

/// The transfer that claims `balance` for `owner`, with the claim memo.
pub fn claim_transfer(owner: &Vec<u8>, balance: u128) -> (r: Transfer)
    ensures
        r.to@ == owner@,
        r.amount == balance,
        r.memo@ == claim_memo(),
{
    let memo: Vec<u8> = vec![
        97u8, 116u8, 116u8, 101u8, 115u8, 116u8, 97u8, 116u8, 105u8, 111u8, 110u8, 32u8, 99u8,
        108u8, 97u8, 105u8, 109u8,
    ];
    assert(memo@ =~= claim_memo());
    Transfer { to: copy_bytes(owner), amount: balance, memo }
}

/// The engine's whole state.
pub struct Attestation {
    owner: Vec<u8>,
    registration_cost: u128,
    max_nonce_diff: u64,
    attestators: AttestatorRegistry,
    users: RecordStore,
}

/// The engine's state as plain values.
pub ghost struct AttestationView {
    /// The administrative address.
    pub owner: Seq<u8>,
    /// The exact payment a registration takes.
    pub registration_cost: u128,
    /// The window, in heights, within which a record must move on.
    pub max_nonce_diff: u64,
    /// The attestators, in the order they joined.
    pub attestators: Seq<Seq<u8>>,
    /// The records by obfuscated key.
    pub users: Map<Seq<u8>, UserView>,
}

/// The state after an operation on the record under `key`: the outcome stored
/// when it succeeded, nothing changed when it failed.
pub open spec fn store_outcome(
    v: AttestationView,
    key: Seq<u8>,
    out: Result<UserView, AttestationError>,
) -> AttestationView {
    match out {
        Ok(u) => AttestationView { users: v.users.insert(key, u), ..v },
        Err(_) => v,
    }
}

/// The caller's view of an outcome: success or the reason for failure.
pub open spec fn unit_outcome(out: Result<UserView, AttestationError>) -> Result<
    (),
    AttestationError,
> {
    match out {
        Ok(_) => Ok(()),
        Err(e) => Err(e),
    }
}

/// What a registration of `key` by `caller` comes to in state `v`.
pub open spec fn register_step(
    v: AttestationView,
    key: Seq<u8>,
    caller: Seq<u8>,
    payment: u128,
    now: u64,
) -> Result<UserView, AttestationError> {
    register_outcome(
        lookup(v.users, key),
        caller,
        payment,
        v.registration_cost,
        v.max_nonce_diff,
        now,
        v.attestators.last(),
    )
}

/// What a commitment to `commitment` for `key` by `caller` comes to in state `v`.
pub open spec fn save_step(
    v: AttestationView,
    key: Seq<u8>,
    caller: Seq<u8>,
    commitment: Seq<u8>,
    now: u64,
) -> Result<UserView, AttestationError> {
    save_outcome(
        lookup(v.users, key),
        caller,
        v.attestators.contains(caller),
        commitment,
        v.max_nonce_diff,
        now,
    )
}

/// What revealing `secret` for `key` by `caller` comes to in state `v`.
pub open spec fn confirm_step(
    v: AttestationView,
    key: Seq<u8>,
    caller: Seq<u8>,
    secret: Seq<u8>,
    now: u64,
) -> Result<UserView, AttestationError> {
    confirm_outcome(lookup(v.users, key), caller, secret, keccak256_of(secret), v.max_nonce_diff, now)
}

impl View for Attestation {
    type V = AttestationView;

    closed spec fn view(&self) -> AttestationView {
        AttestationView {
            owner: self.owner@,
            registration_cost: self.registration_cost,
            max_nonce_diff: self.max_nonce_diff,
            attestators: self.attestators@,
            users: self.users.view(),
        }
    }
}

impl Attestation {
    /// The registry is well formed (so never empty), the owner is an address,
    /// and every stored record has fields of their fixed lengths.
    pub closed spec fn wf(&self) -> bool {
        &&& self.owner@.len() == HASH_LEN
        &&& self.attestators.wf()
        &&& self.users.wf()
        &&& forall|k: Seq<u8>| #[trigger] self.users.view().dom().contains(k) ==> self.users.view()[k].wf()
    }

    /// Sets the engine up for `owner`, with the registration cost, the window
    /// and the first attestators (each kept once); fails on an empty list.
    pub fn init(
        owner: Vec<u8>,
        registration_cost: u128,
        max_nonce_diff: u64,
        attesters: &Vec<Vec<u8>>,
    ) -> (r: Result<Attestation, AttestationError>)
        requires
            owner@.len() == HASH_LEN,
            forall|i: int| 0 <= i < attesters@.len() ==> (#[trigger] attesters@[i])@.len() == HASH_LEN,
        ensures
            attesters@.len() == 0 ==> r == Err::<Attestation, AttestationError>(
                AttestationError::EmptyAttestatorList,
            ),
            attesters@.len() > 0 ==> r is Ok && r->Ok_0.wf() && r->Ok_0@ == (AttestationView {
                owner: owner@,
                registration_cost,
                max_nonce_diff,
                attestators: first_occurrences(address_views(attesters@)),
                users: Map::empty(),
            }),
    {
        if attesters.len() == 0 {
            return Err(AttestationError::EmptyAttestatorList);
        }
        let r = Attestation {
            owner,
            registration_cost,
            max_nonce_diff,
            attestators: AttestatorRegistry::from_list(attesters),
            users: RecordStore::new(),
        };
        Ok(r)
    }

    /// Registers `caller` under `key`, paying `payment`, at height `now`.
    pub fn register(&mut self, key: &Vec<u8>, caller: &Vec<u8>, payment: u128, now: u64) -> (r:
        Result<(), AttestationError>)
        requires
            old(self).wf(),
            caller@.len() == HASH_LEN,
        ensures
            final(self).wf(),
            r == unit_outcome(register_step(old(self)@, key@, caller@, payment, now)),
            final(self)@ == store_outcome(
                old(self)@,
                key@,
                register_step(old(self)@, key@, caller@, payment, now),
            ),
    {
        let record = self.users.get(key);
        let out = register_record(
            record,
            caller,
            payment,
            self.registration_cost,
            self.max_nonce_diff,
            now,
            &self.attestators,
        );
        match out {
            Ok(u) => {
                let ghost uv = u@;
                self.users.set(key, u);
                assert(self.users.view()[key@] == uv);
                Ok(())
            },
            Err(e) => Err(e),
        }
    }

    /// The attestator `caller` commits the record under `key` to `commitment`
    /// at height `now`.
    pub fn save_attestation(
        &mut self,
        key: &Vec<u8>,
        caller: &Vec<u8>,
        commitment: &Vec<u8>,
        now: u64,
    ) -> (r: Result<(), AttestationError>)
        requires
            old(self).wf(),
            commitment@.len() == HASH_LEN,
        ensures
            final(self).wf(),
            r == unit_outcome(save_step(old(self)@, key@, caller@, commitment@, now)),
            final(self)@ == store_outcome(
                old(self)@,
                key@,
                save_step(old(self)@, key@, caller@, commitment@, now),
            ),
    {
        let record = self.users.get(key);
        let out = save_attestation_record(
            record,
            caller,
            commitment,
            self.max_nonce_diff,
            now,
            &self.attestators,
        );
        match out {
            Ok(u) => {
                self.users.set(key, u);
                Ok(())
            },
            Err(e) => Err(e),
        }
    }

    /// The user `caller` reveals `secret` for the record under `key` at
    /// height `now`; it is approved when the secret's Keccak-256 digest is
    /// the commitment.
    pub fn confirm_attestation(&mut self, key: &Vec<u8>, caller: &Vec<u8>, secret: Vec<u8>, now: u64) -> (r:
        Result<(), AttestationError>)
        requires
            old(self).wf(),
            secret@.len() <= u32::MAX,
        ensures
            final(self).wf(),
            r == unit_outcome(confirm_step(old(self)@, key@, caller@, secret@, now)),
            final(self)@ == store_outcome(
                old(self)@,
                key@,
                confirm_step(old(self)@, key@, caller@, secret@, now),
            ),
    {
        let record = self.users.get(key);
        let out = confirm_record(record, caller, secret, self.max_nonce_diff, now);
        match out {
            Ok(u) => {
                self.users.set(key, u);
                Ok(())
            },
            Err(e) => Err(e),
        }
    }

    /// Whether `caller` is the owner.
    fn is_owner(&self, caller: &Vec<u8>) -> (r: bool)
        ensures
            r == (caller@ == self@.owner),
    {
        bytes_eq(caller.as_slice(), self.owner.as_slice())
    }

    /// The owner sets a new registration cost.
    pub fn set_register_cost(&mut self, caller: &Vec<u8>, registration_cost: u128) -> (r: Result<
        (),
        AttestationError,
    >)
        requires
            old(self).wf(),
        ensures
            final(self).wf(),
            caller@ != old(self)@.owner ==> r == Err::<(), AttestationError>(
                AttestationError::NotOwner,
            ) && final(self)@ == old(self)@,
            caller@ == old(self)@.owner ==> r is Ok && final(self)@ == (AttestationView {
                registration_cost,
                ..old(self)@
            }),
    {
        if !self.is_owner(caller) {
            return Err(AttestationError::NotOwner);
        }
        self.registration_cost = registration_cost;
        Ok(())
    }

    /// The owner adds `address` to the attestators, at the end.
    pub fn add_attestator(&mut self, caller: &Vec<u8>, address: &Vec<u8>) -> (r: Result<
        (),
        AttestationError,
    >)
        requires
            old(self).wf(),
            address@.len() == HASH_LEN,
        ensures
            final(self).wf(),
            caller@ != old(self)@.owner ==> r == Err::<(), AttestationError>(
                AttestationError::NotOwner,
            ) && final(self)@ == old(self)@,
            caller@ == old(self)@.owner && old(self)@.attestators.contains(address@) ==> r == Err::<
                (),
                AttestationError,
            >(AttestationError::AlreadyAttestator) && final(self)@ == old(self)@,
            caller@ == old(self)@.owner && !old(self)@.attestators.contains(address@) ==> r is Ok
                && final(self)@ == (AttestationView {
                attestators: old(self)@.attestators.push(address@),
                ..old(self)@
            }),
    {
        if !self.is_owner(caller) {
            return Err(AttestationError::NotOwner);
        }
        self.attestators.add(address)
    }

    /// The owner removes `address` from the attestators; the last one cannot
    /// be removed.
    pub fn remove_attestator(&mut self, caller: &Vec<u8>, address: &Vec<u8>) -> (r: Result<
        (),
        AttestationError,
    >)
        requires
            old(self).wf(),
        ensures
            final(self).wf(),
            final(self)@.attestators.len() > 0,
            caller@ != old(self)@.owner ==> r == Err::<(), AttestationError>(
                AttestationError::NotOwner,
            ) && final(self)@ == old(self)@,
            caller@ == old(self)@.owner && !old(self)@.attestators.contains(address@) ==> r
                == Err::<(), AttestationError>(AttestationError::NotAttestator) && final(self)@
                == old(self)@,
            caller@ == old(self)@.owner && old(self)@.attestators.contains(address@) && old(
                self,
            )@.attestators.len() == 1 ==> r == Err::<(), AttestationError>(
                AttestationError::LastAttestator,
            ) && final(self)@ == old(self)@,
            caller@ == old(self)@.owner && old(self)@.attestators.contains(address@) && old(
                self,
            )@.attestators.len() > 1 ==> r is Ok && exists|i: int|
                0 <= i < old(self)@.attestators.len() && old(self)@.attestators[i] == address@
                    && final(self)@ == (AttestationView {
                    attestators: old(self)@.attestators.remove(i),
                    ..old(self)@
                }) && !final(self)@.attestators.contains(address@),
    {
        if !self.is_owner(caller) {
            return Err(AttestationError::NotOwner);
        }
        self.attestators.remove(address)
    }

    /// The owner claims the engine's balance: the transfer to make, to the
    /// owner, of the whole `balance`, with the claim memo.
    pub fn claim(&self, caller: &Vec<u8>, balance: u128) -> (r: Result<Transfer, AttestationError>)
        requires
            self.wf(),
        ensures
            caller@ != self@.owner ==> r == Err::<Transfer, AttestationError>(
                AttestationError::NotOwner,
            ),
            caller@ == self@.owner ==> r is Ok && r->Ok_0.to@ == self@.owner && r->Ok_0.amount
                == balance && r->Ok_0.memo@ == claim_memo(),
    {
        if !self.is_owner(caller) {
            return Err(AttestationError::NotOwner);
        }
        Ok(claim_transfer(&self.owner, balance))
    }

    /// A copy of the record under `key`, if there is one.
    pub fn get_user_state_endpoint(&self, key: &Vec<u8>) -> (r: Option<User>)
        requires
            self.wf(),
        ensures
            user_opt_view(r) == lookup(self@.users, key@),
    {
        self.users.get(key)
    }

    /// The address of the user behind `key`, once the record is approved.
    pub fn get_public_key(&self, key: &Vec<u8>) -> (r: Result<Vec<u8>, AttestationError>)
        requires
            self.wf(),
        ensures
            !self@.users.dom().contains(key@) ==> r is Err && r->Err_0
                == AttestationError::NoSuchRecord,
            self@.users.dom().contains(key@) && !(self@.users[key@].value_state is Approved) ==> r is Err
                && r->Err_0 == AttestationError::NotApproved,
            self@.users.dom().contains(key@) && self@.users[key@].value_state is Approved ==> r is Ok
                && r->Ok_0@ == self@.users[key@].address,
    {
        public_key_of(self.users.get(key))
    }

    /// The exact payment a registration takes.
    pub fn get_registration_cost(&self) -> (r: u128)
        ensures
            r == self@.registration_cost,
    {
        self.registration_cost
    }

    /// The window, in heights, within which a record must move on.
    pub fn get_max_nonce_diff(&self) -> (r: u64)
        ensures
            r == self@.max_nonce_diff,
    {
        self.max_nonce_diff
    }

    /// The administrative address.
    pub fn get_owner(&self) -> (r: Vec<u8>)
        ensures
            r@ == self@.owner,
    {
        copy_bytes(&self.owner)
    }

    /// Whether `address` is an attestator.
    pub fn is_attestator(&self, address: &Vec<u8>) -> (r: bool)
        ensures
            r == self@.attestators.contains(address@),
    {
        self.attestators.contains(address)
    }

    /// The number of attestators.
    pub fn attestator_count(&self) -> (r: usize)
        ensures
            r == self@.attestators.len(),
    {
        self.attestators.len()
    }
}

/// Every well-formed engine has an attestator and holds none twice; as each
/// operation keeps the engine well formed, no sequence of additions and
/// removals empties the registry.
pub proof fn lemma_attestators_never_empty(a: &Attestation)
    requires
        a.wf(),
    ensures
        a@.attestators.len() > 0,
        distinct(a@.attestators),
{
}

/// A record's phase never goes back over a successful operation: a
/// registration makes it requested, or leaves it pending, unless the record is
/// taken over from another user whose window has run out, which starts it
/// again as requested; a commitment makes it pending; a reveal takes a pending
/// record to approved.
pub proof fn lemma_phase_monotonic(
    v: AttestationView,
    key: Seq<u8>,
    caller: Seq<u8>,
    payment: u128,
    commitment: Seq<u8>,
    secret: Seq<u8>,
    now: u64,
)
    ensures
        register_step(v, key, caller, payment, now) is Ok && !v.users.dom().contains(key)
            ==> register_step(v, key, caller, payment, now)->Ok_0.value_state
            == ValueState::Requested,
        register_step(v, key, caller, payment, now) is Ok && v.users.dom().contains(key) ==> ({
            let before = v.users[key].value_state;
            let after = register_step(v, key, caller, payment, now)->Ok_0.value_state;
            ||| after.byte() >= before.byte() && !(before is Approved)
            ||| claimed_by_other(v.users[key], caller) && elapsed(now, v.users[key].nonce)
                >= v.max_nonce_diff && after == ValueState::Requested
        }),
        save_step(v, key, caller, commitment, now) is Ok ==> v.users.dom().contains(key)
            && v.users[key].value_state.byte() <= ValueState::Pending.byte() && save_step(
            v,
            key,
            caller,
            commitment,
            now,
        )->Ok_0.value_state == ValueState::Pending,
        confirm_step(v, key, caller, secret, now) is Ok ==> v.users.dom().contains(key)
            && v.users[key].value_state == ValueState::Pending && confirm_step(
            v,
            key,
            caller,
            secret,
            now,
        )->Ok_0.value_state == ValueState::Approved,
{
}

/// Committing and revealing are refused with `ExpiredWindow` exactly when more
/// than the window has gone by since the record's last update, once every
/// other condition holds.
pub proof fn lemma_window_enforcement(
    v: AttestationView,
    key: Seq<u8>,
    caller: Seq<u8>,
    commitment: Seq<u8>,
    secret: Seq<u8>,
    now: u64,
)
    requires
        v.users.dom().contains(key),
    ensures
        v.attestators.contains(caller) && !(v.users[key].value_state is Approved) && (v.users[key].attester
            == caller) ==> (save_step(v, key, caller, commitment, now) is Ok <==> elapsed(
            now,
            v.users[key].nonce,
        ) <= v.max_nonce_diff) && (elapsed(now, v.users[key].nonce) > v.max_nonce_diff
            ==> save_step(v, key, caller, commitment, now) == Err::<UserView, AttestationError>(
            AttestationError::ExpiredWindow,
        )),
        v.users[key].value_state is Pending && v.users[key].address == caller && keccak256_of(
            secret,
        ) == v.users[key].public_info ==> (confirm_step(v, key, caller, secret, now) is Ok
            <==> elapsed(now, v.users[key].nonce) <= v.max_nonce_diff) && (elapsed(
            now,
            v.users[key].nonce,
        ) > v.max_nonce_diff ==> confirm_step(v, key, caller, secret, now) == Err::<
            UserView,
            AttestationError,
        >(AttestationError::ExpiredWindow)),
{
}

/// A reveal succeeds only for a secret whose hash is the commitment; when
/// every other condition holds, it succeeds exactly for such a secret and is
/// otherwise refused with `HashMismatch`.
pub proof fn lemma_hash_binding(
    v: AttestationView,
    key: Seq<u8>,
    caller: Seq<u8>,
    secret: Seq<u8>,
    now: u64,
)
    ensures
        confirm_step(v, key, caller, secret, now) is Ok ==> v.users.dom().contains(key)
            && keccak256_of(secret) == v.users[key].public_info,
        v.users.dom().contains(key) && v.users[key].value_state is Pending && v.users[key].address
            == caller && elapsed(now, v.users[key].nonce) <= v.max_nonce_diff ==> (confirm_step(
            v,
            key,
            caller,
            secret,
            now,
        ) is Ok <==> keccak256_of(secret) == v.users[key].public_info) && (keccak256_of(secret)
            != v.users[key].public_info ==> confirm_step(v, key, caller, secret, now) == Err::<
            UserView,
            AttestationError,
        >(AttestationError::HashMismatch)),
{
}

} // verus!
