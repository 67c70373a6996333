//! A side table of simulation state keyed by stable entity identifiers: it
//! decouples each boid from whatever presentation-layer entity it is tied
//! to, cross-referenced by id rather than by an embedded reference.

use vstd::prelude::*;
use crate::boid::Boid;

verus! {

/// The boids of the simulation, keyed by the id of the entity each is tied
/// to, in insertion order.  Each id occurs at most once.
pub struct BoidEntityStore {
    entries: Vec<(u64, Boid)>,
}

/// No entity id occurs twice in `s`.
pub open spec fn keys_unique(s: Seq<(u64, Boid)>) -> bool {
    forall|i: int, j: int|
        0 <= i < j < s.len() ==> (#[trigger] s[i].0) != (#[trigger] s[j].0)
}

/// Some entry of `s` carries the entity id `k`.
pub open spec fn has_key(s: Seq<(u64, Boid)>, k: u64) -> bool {
    exists|i: int| 0 <= i < s.len() && s[i].0 == k
}

impl View for BoidEntityStore {
    type V = Seq<(u64, Boid)>;

    closed spec fn view(&self) -> Seq<(u64, Boid)> {
        self.entries@
    }
}

impl BoidEntityStore {
    /// The store's ids never repeat.
    pub closed spec fn wf(&self) -> bool {
        keys_unique(self.entries@)
    }

    /// An empty store.
    pub fn new() -> (s: BoidEntityStore)
        ensures
            s@ == Seq::<(u64, Boid)>::empty(),
            s.wf(),
    {
        BoidEntityStore { entries: Vec::new() }
    }

    /// Binds `boid` to `entity`: a new id is appended, a known one has its
    /// boid replaced in place.
    pub fn add(&mut self, entity: u64, boid: Boid)
        requires
            old(self).wf(),
        ensures
            final(self).wf(),
            !has_key(old(self)@, entity) ==> final(self)@ == old(self)@.push((entity, boid)),
            has_key(old(self)@, entity) ==> exists|j: int|
                0 <= j < old(self)@.len() && old(self)@[j].0 == entity && final(self)@ == old(
                    self,
                )@.update(j, (entity, boid)),
    {
        let mut i: usize = 0;
        while i < self.entries.len()
            invariant
                i <= self.entries@.len(),
                self == old(self),
                old(self).wf(),
                forall|j: int| 0 <= j < i ==> (#[trigger] self.entries@[j].0) != entity,
            decreases self.entries@.len() - i,
        {
            if self.entries[i].0 == entity {
                self.entries[i] = (entity, boid);
                proof {
                    assert forall|a: int, b: int|
                        0 <= a < b < self.entries@.len() implies self.entries@[a].0
                        != self.entries@[b].0 by {
                        assert(self.entries@[a].0 == old(self).entries@[a].0);
                        assert(self.entries@[b].0 == old(self).entries@[b].0);
                        assert(old(self).entries@[a].0 != old(self).entries@[b].0);
                    }
                }
                return ;
            }
            i = i + 1;
        }
        self.entries.push((entity, boid));
    }

    /// The boid bound to `entity`, if the id is known.
    pub fn get(&self, entity: u64) -> (r: Option<Boid>)
        requires
            self.wf(),
        ensures
            match r {
                Some(b) => exists|i: int|
                    0 <= i < self@.len() && self@[i] == (entity, b),
                None => !has_key(self@, entity),
            },
    {
        let mut i: usize = 0;
        while i < self.entries.len()
            invariant
                i <= self.entries@.len(),
                forall|j: int| 0 <= j < i ==> (#[trigger] self.entries@[j].0) != entity,
            decreases self.entries@.len() - i,
        {
            if self.entries[i].0 == entity {
                let b = self.entries[i].1;
                proof {
                    assert(self@[i as int] == (entity, b));
                }
                return Some(b);
            }
            i = i + 1;
        }
        None
    }

    /// All stored boids, in insertion order.
    pub fn get_all(&self) -> (r: Vec<Boid>)
        ensures
            r@ == self@.map_values(|p: (u64, Boid)| p.1),
    {
        let mut boids: Vec<Boid> = Vec::new();
        let mut i: usize = 0;
        while i < self.entries.len()
            invariant
                i <= self.entries@.len(),
                boids@ == self.entries@.take(i as int).map_values(|p: (u64, Boid)| p.1),
            decreases self.entries@.len() - i,
        {
            boids.push(self.entries[i].1);
            proof {
                assert(self.entries@.take(i + 1) =~= self.entries@.take(i as int).push(
                    self.entries@[i as int],
                ));
                assert(self.entries@.take(i + 1).map_values(|p: (u64, Boid)| p.1) =~= self.entries@
                    .take(i as int).map_values(|p: (u64, Boid)| p.1).push(
                    self.entries@[i as int].1,
                ));
            }
            i = i + 1;
        }
        proof {
            assert(self.entries@.take(self.entries@.len() as int) =~= self.entries@);
        }
        boids
    }
}

} // verus!
