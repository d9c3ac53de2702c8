//! An in-memory entity store.
//!
//! The engine's real entity store lives outside this crate; the frame
//! protocol only needs the capability stated by `EntityStore`. This module
//! provides one store per entity kind that grants that capability and is
//! itself verified, so the whole frame protocol can be exercised end to end.
//! Handles are recycled through a free list, which keeps the handle counter
//! bounded by the number of slots ever in use.

use vstd::prelude::*;

use crate::entity_sync::EntityStore;
use crate::idmap::IdMap;

verus! {

/// A verified entity store for one entity kind: a map from native handle to
/// the payload and transform the entity currently carries.
pub struct KindStore<D, T> {
    entities: IdMap<(D, T)>,
    free: Vec<u64>,
    next: u64,
}

impl<D, T> KindStore<D, T> {
    /// Every handle ever minted is either live or on the free list, and the
    /// counter sits exactly one past them.
    pub closed spec fn wf(&self) -> bool {
        &&& self.entities.wf()
        &&& self.next as int == self.entities@.dom().len() + self.free@.len()
        &&& (forall|h: u64| #[trigger] self.entities@.dom().contains(h) ==> h < self.next)
        &&& (forall|i: int| 0 <= i < self.free@.len() ==> self.free@[i] < self.next)
        &&& (forall|i: int, j: int|
            0 <= i < j < self.free@.len() ==> self.free@[i] != self.free@[j])
        &&& (forall|i: int|
            0 <= i < self.free@.len() ==> !self.entities@.dom().contains(#[trigger] self.free@[i]))
    }

    /// The live entities: handle to payload.
    pub closed spec fn contents(&self) -> Map<u64, (D, T)> {
        self.entities@
    }

    pub fn new() -> (r: KindStore<D, T>)
        ensures
            r.wf(),
            r.contents() == Map::<u64, (D, T)>::empty(),
    {
        let r = KindStore { entities: IdMap::new(), free: Vec::new(), next: 0 };
        proof {
            assert(r.entities@.dom() =~= Set::<u64>::empty());
        }
        r
    }

    /// How many entities are live.
    pub fn len(&self) -> (n: usize)
        requires
            self.wf(),
        ensures
            n == self.contents().dom().len(),
    {
        self.entities.len()
    }

    /// The payload an entity currently carries.
    pub fn get(&self, h: u64) -> (r: Option<&(D, T)>)
        requires
            self.wf(),
        ensures
            match r {
                Some(p) => self.contents().dom().contains(h) && *p == self.contents()[h],
                None => !self.contents().dom().contains(h),
            },
    {
        self.entities.get(h)
    }
}

impl<D, T> EntityStore<D, T> for KindStore<D, T> {
    open spec fn inv(&self) -> bool {
        self.wf()
    }

    open spec fn view(&self) -> Map<u64, (D, T)> {
        self.contents()
    }

    fn create(&mut self, data: D, transform: T) -> (h: u64) {
        proof {
            self.entities.lemma_dom_finite();
        }
        match self.free.pop() {
            Some(h) => {
                // Recycle a despawned handle; the counter already accounts
                // for it.
                self.entities.insert(h, (data, transform));
                proof {
                    self.entities.lemma_dom_finite();
                    assert(self.entities@.dom() =~= old(self).entities@.dom().insert(h));
                }
                h
            },
            None => {
                // The free list is empty, so the counter equals the live
                // count; mint the next handle and move one past it.
                let h = self.next;
                self.entities.insert(h, (data, transform));
                proof {
                    self.entities.lemma_dom_finite();
                    assert(self.entities@.dom() =~= old(self).entities@.dom().insert(h));
                }
                self.next = self.next + 1;
                h
            },
        }
    }

    fn update(&mut self, h: u64, data: D, transform: T) {
        self.entities.insert(h, (data, transform));
        proof {
            assert(self.entities@.dom() =~= old(self).entities@.dom());
        }
    }

    fn despawn(&mut self, h: u64) {
        proof {
            self.entities.lemma_dom_finite();
        }
        self.entities.remove(h);
        self.free.push(h);
        proof {
            assert(self.entities@.dom() =~= old(self).entities@.dom().remove(h));
        }
    }
}

} // verus!
