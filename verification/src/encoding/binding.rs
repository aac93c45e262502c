//! Component bindings: the read-only, per-entity optional views that encoders read.

use vstd::prelude::*;

verus! {

/// One kind of source data, held per entity. An entity is known by its index; slot `i`
/// holds the component of entity `i`, or nothing where the entity has none. An entity
/// beyond the last slot has none either: absence is a value, not an error.
#[derive(Clone, Debug, PartialEq, Eq)]
pub struct Binding<T> {
    /// The components by entity index.
    pub slots: Vec<Option<T>>,
}

impl<T> Binding<T> {
    /// The view of one entity's component: present with its value, or absent.
    pub open spec fn spec_get(&self, entity: int) -> Option<T> {
        if 0 <= entity < self.slots@.len() {
            self.slots@[entity]
        } else {
            None
        }
    }

    /// Whether the entity has this component.
    pub open spec fn present(&self, entity: int) -> bool {
        self.spec_get(entity) is Some
    }

    /// A binding in which no entity has the component.
    pub fn new() -> (r: Self)
        ensures
            r.slots@.len() == 0,
            forall|entity: int| !r.present(entity),
    {
        Binding { slots: Vec::new() }
    }

    /// One more than the largest entity index that can have the component.
    pub fn extent(&self) -> (n: usize)
        ensures
            n == self.slots@.len(),
            forall|entity: int| entity >= n ==> !self.present(entity),
    {
        self.slots.len()
    }

    /// Whether the entity has this component.
    pub fn contains(&self, entity: usize) -> (b: bool)
        ensures
            b == self.present(entity as int),
    {
        entity < self.slots.len() && self.slots[entity].is_some()
    }

    /// Gives the entity the component, and hands back the one it had before.
    pub fn insert(&mut self, entity: usize, value: T) -> (previous: Option<T>)
        requires
            entity < usize::MAX,
        ensures
            previous == old(self).spec_get(entity as int),
            final(self).spec_get(entity as int) == Some(value),
            forall|other: int| other != entity ==> final(self).spec_get(other) == old(self).spec_get(other),
    {
        while self.slots.len() <= entity
            invariant
                entity < usize::MAX,
                self.slots@.len() >= old(self).slots@.len(),
                forall|other: int| self.spec_get(other) == old(self).spec_get(other),
            decreases entity + 1 - self.slots@.len(),
        {
            let ghost before = self.slots@;
            self.slots.push(None);
            assert forall|other: int| self.spec_get(other) == old(self).spec_get(other) by {
                if 0 <= other < before.len() {
                    assert(self.slots@[other] == before[other]);
                }
            }
        }
        let mut held: Option<T> = Some(value);
        std::mem::swap(&mut self.slots[entity], &mut held);
        held
    }

    /// Takes the component from the entity, and hands back the one it had.
    pub fn remove(&mut self, entity: usize) -> (previous: Option<T>)
        ensures
            previous == old(self).spec_get(entity as int),
            final(self).spec_get(entity as int) is None,
            forall|other: int| other != entity ==> final(self).spec_get(other) == old(self).spec_get(other),
    {
        if entity < self.slots.len() {
            let mut held: Option<T> = None;
            std::mem::swap(&mut self.slots[entity], &mut held);
            held
        } else {
            None
        }
    }
}

/// What a list of pairs binds: each index to the component that stands beside it, a
/// later pair replacing an earlier one with the same index. An index that no slot can
/// hold, which is the largest `usize`, is left out.
pub open spec fn bound<T>(pairs: Seq<(u32, T)>) -> Map<int, T>
    decreases pairs.len(),
{
    if pairs.len() == 0 {
        Map::empty()
    } else {
        let before = bound(pairs.drop_last());
        let pair = pairs.last();
        if pair.0 < usize::MAX {
            before.insert(pair.0 as int, pair.1)
        } else {
            before
        }
    }
}

impl<T: Copy> Binding<T> {
    /// Whether the binding presents, for every entity, what the pairs bind to its index.
    pub open spec fn presents(&self, pairs: Seq<(u32, T)>) -> bool {
        forall|entity: int|
            #[trigger] self.spec_get(entity) == (if bound(pairs).contains_key(entity) {
                Some(bound(pairs)[entity])
            } else {
                None
            })
    }

    /// The binding of the components that were gathered from a storage, each with the
    /// index of its entity.
    pub fn from_pairs(pairs: &Vec<(u32, T)>) -> (r: Self)
        ensures
            r.presents(pairs@),
    {
        let mut binding: Binding<T> = Binding::new();
        let mut k: usize = 0;
        while k < pairs.len()
            invariant
                k <= pairs@.len(),
                binding.presents(pairs@.take(k as int)),
            decreases pairs@.len() - k,
        {
            let (index, value) = pairs[k];
            let ghost taken = pairs@.take(k as int);
            let ghost next = pairs@.take(k + 1);
            assert(next.drop_last() =~= taken);
            assert(next.last() == pairs@[k as int]);
            if (index as usize) < usize::MAX {
                binding.insert(index as usize, value);
            }
            assert(binding.presents(next)) by {
                assert forall|entity: int|
                    #[trigger] binding.spec_get(entity) == (if bound(next).contains_key(entity) {
                        Some(bound(next)[entity])
                    } else {
                        None
                    }) by {
                    assert(bound(taken).contains_key(entity) || !bound(taken).contains_key(entity));
                }
            }
            k += 1;
        }
        assert(pairs@.take(pairs@.len() as int) =~= pairs@);
        binding
    }

    /// The view of one entity's component.
    pub fn get(&self, entity: usize) -> (r: Option<T>)
        ensures
            r == self.spec_get(entity as int),
    {
        if entity < self.slots.len() {
            self.slots[entity]
        } else {
            None
        }
    }
}

} // verus!
