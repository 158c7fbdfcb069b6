//! The set of addresses allowed to attest, kept in the order they joined.

use vstd::prelude::*;
use crate::bytes::bytes_eq;
use crate::error::AttestationError;
use crate::user::{copy_bytes, HASH_LEN};

verus! {

/// The attestators, in the order they were added. The registry is never empty
/// and holds no address twice.
pub struct AttestatorRegistry {
    attestators: Vec<Vec<u8>>,
}

/// Whether a sequence holds no element twice.
pub open spec fn distinct(s: Seq<Seq<u8>>) -> bool {
    forall|i: int, j: int| 0 <= i < s.len() && 0 <= j < s.len() && i != j ==> s[i] != s[j]
}

/// The addresses of `list` with every repetition after the first left out.
pub open spec fn first_occurrences(list: Seq<Seq<u8>>) -> Seq<Seq<u8>>
    decreases list.len(),
{
    if list.len() == 0 {
        Seq::empty()
    } else {
        let rest = first_occurrences(list.drop_last());
        if rest.contains(list.last()) {
            rest
        } else {
            rest.push(list.last())
        }
    }
}

/// The addresses of a list of byte vectors, as plain values.
pub open spec fn address_views(list: Seq<Vec<u8>>) -> Seq<Seq<u8>> {
    list.map_values(|a: Vec<u8>| a@)
}

impl View for AttestatorRegistry {
    type V = Seq<Seq<u8>>;

    closed spec fn view(&self) -> Seq<Seq<u8>> {
        address_views(self.attestators@)
    }
}

impl AttestatorRegistry {
    /// Non-empty, no address twice, every address of the fixed length.
    pub open spec fn wf(&self) -> bool {
        &&& self@.len() > 0
        &&& distinct(self@)
        &&& forall|i: int| 0 <= i < self@.len() ==> (#[trigger] self@[i]).len() == HASH_LEN
    }

    /// A registry of the addresses of `list`, each once, in the order of their
    /// first appearance.
    pub fn from_list(list: &Vec<Vec<u8>>) -> (r: AttestatorRegistry)
        requires
            list@.len() > 0,
            forall|i: int| 0 <= i < list@.len() ==> (#[trigger] list@[i])@.len() == HASH_LEN,
        ensures
            r.wf(),
            r@ == first_occurrences(address_views(list@)),
    {
        let mut r = AttestatorRegistry { attestators: Vec::new() };
        let mut i: usize = 0;
        while i < list.len()
            invariant
                i <= list@.len(),
                forall|k: int| 0 <= k < list@.len() ==> (#[trigger] list@[k])@.len() == HASH_LEN,
                r@ == first_occurrences(address_views(list@).subrange(0, i as int)),
                distinct(r@),
                forall|k: int| 0 <= k < r@.len() ==> (#[trigger] r@[k]).len() == HASH_LEN,
                i > 0 ==> r@.len() > 0,
            decreases list@.len() - i,
        {
            let ghost before = address_views(list@).subrange(0, i as int);
            let ghost after = address_views(list@).subrange(0, i + 1);
            assert(after.drop_last() =~= before);
            assert(after.last() == list@[i as int]@);
            if !r.contains(&list[i]) {
                let ghost old_view = r@;
                r.attestators.push(copy_bytes(&list[i]));
                assert(r@ =~= old_view.push(list@[i as int]@));
            }
            i = i + 1;
        }
        assert(address_views(list@).subrange(0, i as int) =~= address_views(list@));
        r
    }

    /// Whether `a` is an attestator.
    pub fn contains(&self, a: &Vec<u8>) -> (r: bool)
        ensures
            r == self@.contains(a@),
    {
        match self.index_of(a) {
            Some(_) => true,
            None => false,
        }
    }

    /// Where `a` stands in the registry, if it is there.
    pub fn index_of(&self, a: &Vec<u8>) -> (r: Option<usize>)
        ensures
            r matches Some(i) ==> i < self@.len() && self@[i as int] == a@,
            r is None ==> !self@.contains(a@),
    {
        let mut i: usize = 0;
        while i < self.attestators.len()
            invariant
                i <= self@.len(),
                self@.len() == self.attestators@.len(),
                forall|k: int| 0 <= k < i ==> self@[k] != a@,
            decreases self@.len() - i,
        {
            if bytes_eq(self.attestators[i].as_slice(), a.as_slice()) {
                return Some(i);
            }
            i = i + 1;
        }
        None
    }

    /// The attestators, in the order they joined.
    pub fn to_list(&self) -> (r: Vec<Vec<u8>>)
        ensures
            address_views(r@) == self@,
    {
        let mut r: Vec<Vec<u8>> = Vec::new();
        let mut i: usize = 0;
        while i < self.attestators.len()
            invariant
                i <= self.attestators@.len(),
                address_views(r@) == self@.subrange(0, i as int),
            decreases self.attestators@.len() - i,
        {
            let ghost before = r@;
            r.push(copy_bytes(&self.attestators[i]));
            assert(self@[i as int] == self.attestators@[i as int]@);
            assert(address_views(r@) =~= address_views(before).push(self@[i as int]));
            i = i + 1;
            assert(address_views(r@) =~= self@.subrange(0, i as int));
        }
        assert(self@.subrange(0, i as int) =~= self@);
        r
    }

    /// The number of attestators.
    pub fn len(&self) -> (r: usize)
        ensures
            r == self@.len(),
    {
        self.attestators.len()
    }

    /// The attestator that a new record is bound to: the one added last.
    pub fn select(&self) -> (r: Vec<u8>)
        requires
            self.wf(),
        ensures
            r@ == self@.last(),
    {
        copy_bytes(&self.attestators[self.attestators.len() - 1])
    }

    /// Adds `a` at the end, unless it is an attestator already.
    pub fn add(&mut self, a: &Vec<u8>) -> (r: Result<(), AttestationError>)
        requires
            old(self).wf(),
            a@.len() == HASH_LEN,
        ensures
            final(self).wf(),
            old(self)@.contains(a@) ==> r == Err::<(), AttestationError>(
                AttestationError::AlreadyAttestator,
            ) && final(self)@ == old(self)@,
            !old(self)@.contains(a@) ==> r is Ok && final(self)@ == old(self)@.push(a@),
    {
        if self.contains(a) {
            return Err(AttestationError::AlreadyAttestator);
        }
        self.attestators.push(copy_bytes(a));
        assert(self@ =~= old(self)@.push(a@));
        Ok(())
    }

    /// Removes `a`, unless it is no attestator or the only one.
    pub fn remove(&mut self, a: &Vec<u8>) -> (r: Result<(), AttestationError>)
        requires
            old(self).wf(),
        ensures
            final(self).wf(),
            !old(self)@.contains(a@) ==> r == Err::<(), AttestationError>(
                AttestationError::NotAttestator,
            ) && final(self)@ == old(self)@,
            old(self)@.contains(a@) && old(self)@.len() == 1 ==> r == Err::<(), AttestationError>(
                AttestationError::LastAttestator,
            ) && final(self)@ == old(self)@,
            old(self)@.contains(a@) && old(self)@.len() > 1 ==> r is Ok && exists|i: int|
                0 <= i < old(self)@.len() && old(self)@[i] == a@ && final(self)@ == old(
                    self,
                )@.remove(i),
            old(self)@.contains(a@) && old(self)@.len() > 1 ==> !final(self)@.contains(a@),
    {
        match self.index_of(a) {
            None => Err(AttestationError::NotAttestator),
            Some(i) => {
                if self.attestators.len() == 1 {
                    return Err(AttestationError::LastAttestator);
                }
                let _ = self.attestators.remove(i);
                assert(self@ =~= old(self)@.remove(i as int));
                assert(distinct(self@)) by {
                    assert forall|p: int, q: int|
                        0 <= p < self@.len() && 0 <= q < self@.len() && p != q implies self@[p]
                        != self@[q] by {
                        let pp = if p < i { p } else { p + 1 };
                        let qq = if q < i { q } else { q + 1 };
                        assert(self@[p] == old(self)@[pp]);
                        assert(self@[q] == old(self)@[qq]);
                    }
                }
                assert forall|k: int| 0 <= k < self@.len() implies self@[k] != a@ by {
                    let kk = if k < i { k } else { k + 1 };
                    assert(self@[k] == old(self)@[kk]);
                    assert(old(self)@[i as int] == a@);
                }
                assert forall|k: int| 0 <= k < self@.len() implies (#[trigger] self@[k]).len()
                    == HASH_LEN by {
                    let kk = if k < i { k } else { k + 1 };
                    assert(self@[k] == old(self)@[kk]);
                }
                Ok(())
            },
        }
    }
}

} // verus!
