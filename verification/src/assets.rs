//! A table of assets that are found by handle.

use vstd::prelude::*;

verus! {

/// Assets of one kind, each found by the identifier that its handle carries.
///
/// A handle can exist before its asset does: `reserve` gives out an identifier whose
/// slot stays empty until `store` fills it. A handle whose slot is empty, or that the
/// table never gave out, is unresolved.
#[derive(Clone, Debug, PartialEq, Eq)]
pub struct AssetStorage<A> {
    /// Slot `i` holds the asset of identifier `i`, once it is there.
    pub slots: Vec<Option<A>>,
}

impl<A> AssetStorage<A> {
    /// The asset that the identifier resolves to, if any.
    pub open spec fn resolve(&self, id: int) -> Option<A> {
        if 0 <= id < self.slots@.len() {
            self.slots@[id]
        } else {
            None
        }
    }

    /// A table without assets.
    pub fn new() -> (r: Self)
        ensures
            r.slots@.len() == 0,
            forall|id: int| r.resolve(id) is None,
    {
        AssetStorage { slots: Vec::new() }
    }

    /// The number of identifiers given out so far.
    pub fn len(&self) -> (n: usize)
        ensures
            n == self.slots@.len(),
    {
        self.slots.len()
    }

    /// Gives out the next identifier and leaves its slot empty.
    pub fn reserve(&mut self) -> (id: usize)
        ensures
            id == old(self).slots@.len(),
            final(self).slots@ == old(self).slots@.push(None),
    {
        let id: usize = self.slots.len();
        self.slots.push(None);
        id
    }

    /// Puts an asset into the slot of an identifier that was given out before, and
    /// hands back what the slot held. An identifier that was never given out changes
    /// nothing and the asset comes back as the error.
    pub fn store(&mut self, id: usize, asset: A) -> (r: Result<Option<A>, A>)
        ensures
            id < old(self).slots@.len() ==> r == Ok::<Option<A>, A>(old(self).slots@[id as int])
                && final(self).slots@ == old(self).slots@.update(id as int, Some(asset)),
            id >= old(self).slots@.len() ==> r == Err::<Option<A>, A>(asset) && final(self).slots@
                == old(self).slots@,
    {
        if id < self.slots.len() {
            let mut held: Option<A> = Some(asset);
            std::mem::swap(&mut self.slots[id], &mut held);
            Ok(held)
        } else {
            Err(asset)
        }
    }

    /// Adds an asset that is available at once and returns its identifier.
    pub fn load(&mut self, asset: A) -> (id: usize)
        ensures
            id == old(self).slots@.len(),
            final(self).slots@ == old(self).slots@.push(Some(asset)),
            final(self).resolve(id as int) == Some(asset),
            forall|other: int| other != id ==> final(self).resolve(other) == old(self).resolve(other),
    {
        let id: usize = self.slots.len();
        self.slots.push(Some(asset));
        id
    }

    /// The asset behind an identifier, or `None` where the identifier is unresolved.
    pub fn get(&self, id: usize) -> (r: Option<&A>)
        ensures
            r matches Some(a) ==> self.resolve(id as int) == Some(*a),
            r is None ==> self.resolve(id as int) is None,
    {
        if id < self.slots.len() {
            self.slots[id].as_ref()
        } else {
            None
        }
    }
}

} // verus!
