use std::mem::ManuallyDrop;
use std::ops::Deref;
use vstd::pervasive::VecAdditionalExecFns;
use vstd::prelude::*;

verus! {

/// A single slot holding one value whose destructor never runs implicitly:
/// neither when the container goes out of scope nor while a panic unwinds
/// through the scope that holds it.
pub struct NoDrop<T> {
    inner: ManuallyDrop<T>,
}

impl<T> View for NoDrop<T> {
    type V = T;

    closed spec fn view(&self) -> T {
        self.inner@
    }
}

impl<T> NoDrop<T> {
    /// Wraps `t` without arranging for it to be dropped.
    pub fn new(t: T) -> (r: Self)
        ensures
            r@ == t,
    {
        NoDrop { inner: ManuallyDrop::new(t) }
    }

    /// The value, read in place.
    pub fn get(&self) -> (r: &T)
        ensures
            *r == self@,
    {
        self.inner.deref()
    }
}

/// Storage in which containers stand at stable, non-zero addresses until their
/// value is moved out. Values still held when the storage goes away are not
/// dropped.
pub struct Memory<T> {
    slots: Vec<Option<NoDrop<T>>>,
}

impl<T> View for Memory<T> {
    /// The values held, by address.
    type V = Map<usize, T>;

    closed spec fn view(&self) -> Map<usize, T> {
        Map::new(
            |a: usize| 1 <= a <= self.slots@.len() && self.slots@[a - 1] is Some,
            |a: usize| self.slots@[a - 1]->Some_0@,
        )
    }
}

impl<T> Memory<T> {
    /// No container stands at address zero.
    pub proof fn lemma_no_null(&self)
        ensures
            !self@.contains_key(0),
    {
    }

    /// The number of addresses handed out so far.
    pub closed spec fn used(&self) -> nat {
        self.slots@.len()
    }

    pub fn new() -> (r: Self)
        ensures
            r@ == Map::<usize, T>::empty(),
            r.used() == 0,
    {
        let r = Memory { slots: Vec::new() };
        assert(r@ =~= Map::<usize, T>::empty());
        r
    }

    /// Places a container at a fresh address and returns that address.
    pub fn place(&mut self, c: NoDrop<T>) -> (addr: usize)
        requires
            old(self).used() < usize::MAX,
        ensures
            addr == old(self).used() + 1,
            !old(self)@.contains_key(addr),
            final(self)@ == old(self)@.insert(addr, c@),
            final(self).used() == old(self).used() + 1,
    {
        let ghost c_val = c@;
        self.slots.push(Some(c));
        let addr = self.slots.len();
        assert(final(self)@ =~= old(self)@.insert(addr, c_val));
        addr
    }

    /// The container at `addr`, if one stands there.
    pub fn get(&self, addr: usize) -> (r: Option<&NoDrop<T>>)
        ensures
            r is Some <==> self@.contains_key(addr),
            r is Some ==> r->Some_0@ == self@[addr],
    {
        if addr == 0 || addr > self.slots.len() {
            None
        } else {
            match &self.slots[addr - 1] {
                Some(c) => Some(c),
                None => None,
            }
        }
    }

    /// Moves the value out of the container at `addr`, leaving that address
    /// empty. The caller then owns the value, and dropping it runs its
    /// destructor.
    pub fn take(&mut self, addr: usize) -> (r: Option<T>)
        ensures
            r == (if old(self)@.contains_key(addr) {
                Some(old(self)@[addr])
            } else {
                None::<T>
            }),
            final(self)@ == old(self)@.remove(addr),
            final(self).used() == old(self).used(),
    {
        if addr == 0 || addr > self.slots.len() {
            assert(final(self)@ =~= old(self)@.remove(addr));
            return None;
        }
        let mut slot: Option<NoDrop<T>> = None;
        self.slots.set_and_swap(addr - 1, &mut slot);
        assert(final(self)@ =~= old(self)@.remove(addr));
        match slot {
            Some(c) => Some(ManuallyDrop::into_inner(c.inner)),
            None => None,
        }
    }
}

} // verus!
