//! The records, each under its obfuscated key.

use vstd::prelude::*;
use crate::bytes::bytes_eq;
use crate::registry::{address_views, distinct};
use crate::user::{copy_bytes, User, UserView};

verus! {

/// The records kept by the engine, at most one per key.
pub struct RecordStore {
    keys: Vec<Vec<u8>>,
    users: Vec<User>,
}

/// The record stored under `k`, if any.
pub open spec fn lookup(m: Map<Seq<u8>, UserView>, k: Seq<u8>) -> Option<UserView> {
    if m.dom().contains(k) {
        Some(m[k])
    } else {
        None
    }
}

/// A record that may be absent, as plain values.
pub open spec fn user_opt_view(r: Option<User>) -> Option<UserView> {
    match r {
        Some(u) => Some(u@),
        None => None,
    }
}

proof fn lemma_index_of_distinct(s: Seq<Seq<u8>>, j: int)
    requires
        distinct(s),
        0 <= j < s.len(),
    ensures
        s.index_of(s[j]) == j,
{
    assert(s.contains(s[j]));
}

impl RecordStore {
    spec fn key_views(&self) -> Seq<Seq<u8>> {
        address_views(self.keys@)
    }

    /// Keys and records pair up, and no key appears twice.
    pub closed spec fn wf(&self) -> bool {
        &&& self.keys@.len() == self.users@.len()
        &&& distinct(self.key_views())
    }

    pub closed spec fn view(&self) -> Map<Seq<u8>, UserView> {
        Map::new(
            |k: Seq<u8>| self.key_views().contains(k),
            |k: Seq<u8>| self.users@[self.key_views().index_of(k)]@,
        )
    }

    /// A store with no record.
    pub fn new() -> (r: RecordStore)
        ensures
            r.wf(),
            r.view() == Map::<Seq<u8>, UserView>::empty(),
    {
        let r = RecordStore { keys: Vec::new(), users: Vec::new() };
        assert(r.view() =~= Map::<Seq<u8>, UserView>::empty());
        r
    }

    fn find(&self, key: &Vec<u8>) -> (r: Option<usize>)
        requires
            self.wf(),
        ensures
            r matches Some(i) ==> i < self.keys@.len() && self.key_views()[i as int] == key@,
            r is None ==> !self.key_views().contains(key@),
    {
        let mut i: usize = 0;
        while i < self.keys.len()
            invariant
                i <= self.keys@.len(),
                self.key_views().len() == self.keys@.len(),
                forall|k: int| 0 <= k < i ==> self.key_views()[k] != key@,
            decreases self.keys@.len() - i,
        {
            if bytes_eq(self.keys[i].as_slice(), key.as_slice()) {
                return Some(i);
            }
            i = i + 1;
        }
        None
    }

    /// A copy of the record under `key`, if there is one.
    pub fn get(&self, key: &Vec<u8>) -> (r: Option<User>)
        requires
            self.wf(),
        ensures
            user_opt_view(r) == lookup(self.view(), key@),
    {
        match self.find(key) {
            Some(i) => {
                proof {
                    lemma_index_of_distinct(self.key_views(), i as int);
                }
                Some(self.users[i].copy())
            },
            None => None,
        }
    }

    /// Stores `u` under `key`, in place of any record there.
    pub fn set(&mut self, key: &Vec<u8>, u: User)
        requires
            old(self).wf(),
        ensures
            final(self).wf(),
            final(self).view() == old(self).view().insert(key@, u@),
    {
        let ghost uv = u@;
        match self.find(key) {
            Some(i) => {
                self.users.set(i, u);
                proof {
                    lemma_index_of_distinct(self.key_views(), i as int);
                }
                assert(self.view() =~= old(self).view().insert(key@, uv));
            },
            None => {
                self.keys.push(copy_bytes(key));
                self.users.push(u);
                let ghost ks = self.key_views();
                assert(ks =~= old(self).key_views().push(key@));
                assert(distinct(ks));
                assert forall|k: Seq<u8>| #[trigger] old(self).key_views().contains(k) implies ks.index_of(k)
                    == old(self).key_views().index_of(k) by {
                    let j = old(self).key_views().index_of(k);
                    lemma_index_of_distinct(old(self).key_views(), j);
                    assert(ks[j] == k);
                    lemma_index_of_distinct(ks, j);
                }
                proof {
                    lemma_index_of_distinct(ks, ks.len() - 1);
                }
                assert(self.users@ =~= old(self).users@.push(u));
                assert forall|k: Seq<u8>| ks.contains(k) <==> (old(self).key_views().contains(k) || k
                    == key@) by {
                    if ks.contains(k) {
                        let j = choose|j: int| 0 <= j < ks.len() && ks[j] == k;
                        if j < ks.len() - 1 {
                            assert(old(self).key_views()[j] == k);
                        }
                    }
                    if old(self).key_views().contains(k) {
                        let j = choose|j: int| 0 <= j < old(self).key_views().len() && old(self).key_views()[j] == k;
                        assert(ks[j] == k);
                    }
                    if k == key@ {
                        assert(ks[ks.len() - 1] == k);
                    }
                }
                assert forall|k: Seq<u8>| #[trigger] self.view().dom().contains(k) implies self.view()[k]
                    == old(self).view().insert(key@, uv)[k] by {
                    if k != key@ {
                        assert(old(self).key_views().contains(k));
                        let j = old(self).key_views().index_of(k);
                        lemma_index_of_distinct(old(self).key_views(), j);
                    }
                }
                assert(self.view() =~= old(self).view().insert(key@, uv));
            },
        }
    }
}

} // verus!
