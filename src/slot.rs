use vstd::prelude::*;

verus! {

/// The cell holding the current domain implementation. It is changed only by
/// [`DomainSlot::update`], and counts how often it has been.
pub struct DomainSlot<D> {
    current: D,
    generation: Ghost<nat>,
}

impl<D> DomainSlot<D> {
    /// The implementation held now.
    pub closed spec fn value(&self) -> D {
        self.current
    }

    /// How many updates the slot has seen.
    pub closed spec fn generation(&self) -> nat {
        self.generation@
    }

    pub fn new(domain: D) -> (r: Self)
        ensures
            r.value() == domain,
            r.generation() == 0,
    {
        DomainSlot { current: domain, generation: Ghost(0) }
    }

    /// The current implementation, for a caller whose admission is already
    /// held.
    pub fn get(&self) -> (r: &D)
        ensures
            *r == self.value(),
    {
        &self.current
    }

    /// Applies `f` to the current implementation, for a caller whose
    /// admission is already held.
    pub fn read_directly<T, F: FnOnce(&D) -> T>(&self, f: F) -> (r: T)
        requires
            f.requires((&self.value(),)),
        ensures
            f.ensures((&self.value(),), r),
    {
        f(&self.current)
    }

    /// Publishes `new` as the current implementation and returns the one it
    /// replaces. It never waits and never fails: whoever calls it has
    /// already excluded or drained the callers.
    pub fn update(&mut self, new: D) -> (r: D)
        ensures
            r == old(self).value(),
            final(self).value() == new,
            final(self).generation() == old(self).generation() + 1,
    {
        let mut swapped = new;
        core::mem::swap(&mut self.current, &mut swapped);
        self.generation = Ghost(self.generation@ + 1);
        swapped
    }
}

} // verus!
