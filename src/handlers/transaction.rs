//! The staging area of one open transaction: one slot per artifact kind.

use vstd::prelude::*;

use crate::file_type::UnityFileType;
use crate::hex::{UnityFileGuid, UnityFileHash};

verus! {

/// The kind that owns slot `i`.
pub open spec fn kind_of_slot(i: int) -> UnityFileType {
    if i == 0 {
        UnityFileType::Asset
    } else if i == 1 {
        UnityFileType::Info
    } else {
        UnityFileType::Resource
    }
}

/// The occupied slots of `slots`, each with its kind, in slot order.
pub open spec fn staged<T>(slots: Seq<Option<T>>) -> Seq<(UnityFileType, T)>
    decreases slots.len(),
{
    if slots.len() == 0 {
        Seq::empty()
    } else {
        let rest = staged(slots.drop_last());
        match slots.last() {
            Some(v) => rest.push((kind_of_slot(slots.len() - 1), v)),
            None => rest,
        }
    }
}

/// One optional staged value for each artifact kind.
#[derive(Debug)]
pub struct TransactionFiles<T>(pub Vec<Option<T>>);

impl<T> TransactionFiles<T> {
    /// There is exactly one slot per kind.
    pub open spec fn wf(&self) -> bool {
        self.0@.len() == UnityFileType::LENGTH
    }

    /// What is staged for kind `t`.
    pub open spec fn slot(&self, t: UnityFileType) -> Option<T> {
        self.0@[t.index() as int]
    }

    /// Every slot is empty.
    pub open spec fn is_empty(&self) -> bool {
        forall|t: UnityFileType| (#[trigger] self.slot(t)) is None
    }

    pub fn new() -> (r: Self)
        ensures
            r.wf(),
            r.is_empty(),
    {
        let r = TransactionFiles(vec![None, None, None]);
        assert forall|t: UnityFileType| (#[trigger] r.slot(t)) is None by {
            assert(r.0@[t.index() as int] is None);
        }
        r
    }

    /// Empties the slot of `typ` and returns what it held.
    pub fn take(&mut self, typ: UnityFileType) -> (r: Option<T>)
        requires
            old(self).wf(),
        ensures
            final(self).wf(),
            r == old(self).slot(typ),
            final(self).slot(typ) is None,
            forall|u: UnityFileType| u != typ ==> #[trigger] final(self).slot(u) == old(self).slot(u),
    {
        let mut r: Option<T> = None;
        let i = typ.to_u8() as usize;
        std::mem::swap(&mut self.0[i], &mut r);
        proof {
            assert forall|u: UnityFileType| u != typ implies #[trigger] self.slot(u) == old(
                self,
            ).slot(u) by {
                assert(u.index() != typ.index());
            }
        }
        r
    }

    /// Empties every slot and returns the staged values with their kinds, in
    /// kind order.
    pub fn take_all(&mut self) -> (r: Vec<(UnityFileType, T)>)
        requires
            old(self).wf(),
        ensures
            final(self).wf(),
            final(self).is_empty(),
            r@ == staged(old(self).0@),
    {
        let mut result: Vec<(UnityFileType, T)> = Vec::with_capacity(self.0.len());
        let mut i: usize = 0;
        while i < self.0.len()
            invariant
                self.wf(),
                old(self).wf(),
                i <= 3,
                forall|j: int| 0 <= j < i ==> (#[trigger] self.0@[j]) is None,
                forall|j: int| i <= j < 3 ==> #[trigger] self.0@[j] == old(self).0@[j],
                result@ == staged(old(self).0@.subrange(0, i as int)),
            decreases 3 - i,
        {
            let mut item: Option<T> = None;
            std::mem::swap(&mut self.0[i], &mut item);
            proof {
                let p = old(self).0@.subrange(0, i + 1);
                assert(p.drop_last() =~= old(self).0@.subrange(0, i as int));
                assert(p.last() == item);
            }
            match item {
                Some(v) => {
                    let t = match i {
                        0 => UnityFileType::Asset,
                        1 => UnityFileType::Info,
                        _ => UnityFileType::Resource,
                    };
                    result.push((t, v));
                },
                None => {},
            }
            i = i + 1;
        }
        assert(old(self).0@.subrange(0, 3) =~= old(self).0@);
        assert forall|t: UnityFileType| (#[trigger] self.slot(t)) is None by {
            assert(self.0@[t.index() as int] is None);
        }
        result
    }

    /// Stages `value` for `typ`, replacing what was staged for it.
    pub fn set(&mut self, typ: UnityFileType, value: T)
        requires
            old(self).wf(),
        ensures
            final(self).wf(),
            final(self).slot(typ) == Some(value),
            forall|u: UnityFileType| u != typ ==> #[trigger] final(self).slot(u) == old(self).slot(u),
    {
        let i = typ.to_u8() as usize;
        self.0[i] = Some(value);
        proof {
            assert forall|u: UnityFileType| u != typ implies #[trigger] self.slot(u) == old(
                self,
            ).slot(u) by {
                assert(u.index() != typ.index());
            }
        }
    }

    /// What is staged for `typ`.
    pub fn get(&mut self, typ: UnityFileType) -> (r: Option<&T>)
        requires
            old(self).wf(),
        ensures
            *final(self) == *old(self),
            r == match old(self).slot(typ) {
                Some(v) => Some(&v),
                None => None::<&T>,
            },
    {
        let i = typ.to_u8() as usize;
        self.0[i].as_ref()
    }

    /// A mutable reference to what is staged for `typ`: a write through it
    /// changes that slot and no other.
    pub fn get_mut(&mut self, typ: UnityFileType) -> (r: Option<&mut T>)
        requires
            old(self).wf(),
        ensures
            final(self).wf(),
            match old(self).slot(typ) {
                None => r is None && final(self).slot(typ) is None,
                Some(v) => r is Some && *r->Some_0 == v && final(self).slot(typ) == Some(
                    *final(r->Some_0),
                ),
            },
            forall|u: UnityFileType| u != typ ==> #[trigger] final(self).slot(u) == old(self).slot(u),
    {
        let i = typ.to_u8() as usize;
        proof {
            assert forall|u: UnityFileType| u != typ implies u.index() != typ.index() by {}
        }
        self.0[i].as_mut()
    }
}

/// An open transaction: the identity and content hash that its artifacts
/// are stored under, and what has been staged so far.
#[derive(Debug)]
pub struct Transaction<T> {
    pub guid: UnityFileGuid,
    pub hash: UnityFileHash,
    pub files: TransactionFiles<T>,
}

impl<T> Transaction<T> {
    pub open spec fn wf(&self) -> bool {
        self.files.wf()
    }

    pub fn new(guid: UnityFileGuid, hash: UnityFileHash) -> (r: Self)
        ensures
            r.wf(),
            r.guid == guid,
            r.hash == hash,
            r.files.is_empty(),
    {
        Transaction { guid, hash, files: TransactionFiles::new() }
    }
}

} // verus!
