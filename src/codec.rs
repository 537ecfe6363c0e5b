use crate::container::{Memory, NoDrop};
use crate::repr::{le_bytes, le_value, Repr};
use vstd::layout::{align_of, size_of};
use vstd::prelude::*;

verus! {

/// Whether a value of `T` travels inside the word itself: its size and its
/// alignment are both at most those of a machine word. Otherwise the word
/// carries the address of the container that holds it.
pub open spec fn fits_inline<T>() -> bool {
    size_of::<T>() <= size_of::<usize>() && align_of::<T>() <= align_of::<usize>()
}

/// The word that carries `v` in inline mode: the bytes of `v` followed by zero
/// bytes up to the width of a word, read least significant first.
pub open spec fn inline_word<T: Repr>(v: T) -> usize {
    le_value(v.repr()) as usize
}

/// The word that encoding gives for the value `v` held by a container standing
/// at address `at`: the inline word if `T` fits, and otherwise `at` itself.
pub open spec fn encoded<T: Repr>(v: T, at: usize) -> usize {
    if fits_inline::<T>() {
        inline_word(v)
    } else {
        at
    }
}

/// The bytes that decoding reads back out of an inline word.
pub open spec fn word_prefix<T>(w: usize) -> Seq<u8> {
    le_bytes(w as nat, size_of::<T>())
}

/// Whether `w` can be decoded as a `T` against the values `m` held in memory.
pub open spec fn decodable<T: Repr>(w: usize, m: Map<usize, T>) -> bool {
    if fits_inline::<T>() {
        T::is_repr(word_prefix::<T>(w))
    } else {
        m.contains_key(w)
    }
}

/// The value that decoding `w` as a `T` gives.
pub open spec fn decoded<T: Repr>(w: usize, m: Map<usize, T>) -> T {
    if fits_inline::<T>() {
        T::of_repr(word_prefix::<T>(w))
    } else {
        m[w]
    }
}

/// The values held in memory after `w` was decoded: in address mode the value
/// has been moved out of its container.
pub open spec fn after_decode<T: Repr>(w: usize, m: Map<usize, T>) -> Map<usize, T> {
    if fits_inline::<T>() {
        m
    } else {
        m.remove(w)
    }
}

fn is_inline<T>() -> (r: bool)
    ensures
        r == fits_inline::<T>(),
{
    std::mem::size_of::<T>() <= std::mem::size_of::<usize>() && std::mem::align_of::<T>()
        <= std::mem::align_of::<usize>()
}

impl<T: Repr> NoDrop<T> {
    /// Packs the value into a word when it fits one. A value that does not fit
    /// travels by the address of its container, which only a container
    /// standing in a `Memory` has (see `Memory::encode_at`): then `None`. The
    /// container is left as it was and nothing is dropped.
    pub fn encode_usize(&self) -> (r: Option<usize>)
        ensures
            r == (if fits_inline::<T>() {
                Some(inline_word(self@))
            } else {
                None::<usize>
            }),
    {
        if is_inline::<T>() {
            Some(self.get().to_word())
        } else {
            None
        }
    }
}

impl<T: Repr> Memory<T> {
    /// Encodes the container standing at `addr`: its value's bytes when they
    /// fit a word, and otherwise `addr`, which is never zero.
    pub fn encode_at(&self, addr: usize) -> (r: usize)
        requires
            self@.contains_key(addr),
        ensures
            r == encoded(self@[addr], addr),
            !fits_inline::<T>() ==> r != 0,
    {
        proof {
            self.lemma_no_null();
        }
        let c = self.get(addr).unwrap();
        match c.encode_usize() {
            Some(w) => w,
            None => addr,
        }
    }
}

impl<T> Memory<T> {
    /// Encodes the container standing at `addr` by its address, for a type
    /// that does not fit a word. The value's bytes are not read.
    pub fn encode_address(&self, addr: usize) -> (r: usize)
        requires
            self@.contains_key(addr),
            !fits_inline::<T>(),
        ensures
            r == addr,
            r != 0,
    {
        proof {
            self.lemma_no_null();
        }
        addr
    }
}

/// Unpacks a word made by encoding. In inline mode the value is rebuilt from
/// the word's low-order bytes and memory is not touched; in address mode it is
/// moved out of the container at that address.
pub fn decode_usize<T: Repr>(val: usize, mem: &mut Memory<T>) -> (r: T)
    requires
        decodable(val, old(mem)@),
    ensures
        r == decoded(val, old(mem)@),
        fits_inline::<T>() ==> r.repr() == word_prefix::<T>(val),
        final(mem)@ == after_decode(val, old(mem)@),
        final(mem).used() == old(mem).used(),
{
    if is_inline::<T>() {
        proof {
            T::lemma_of_repr(word_prefix::<T>(val));
        }
        T::from_word(val)
    } else {
        decode_address(val, mem)
    }
}

/// Unpacks a word that carries the address of a container, for a type that
/// does not fit a word: the value is moved out of that container.
pub fn decode_address<T>(val: usize, mem: &mut Memory<T>) -> (r: T)
    requires
        !fits_inline::<T>(),
        old(mem)@.contains_key(val),
    ensures
        r == old(mem)@[val],
        final(mem)@ == old(mem)@.remove(val),
        final(mem).used() == old(mem).used(),
{
    mem.take(val).unwrap()
}

/// Unpacks the word in the slot that `ptr` points to; no slot gives `None`
/// and leaves memory untouched.
pub fn decode_ptr<T: Repr>(ptr: Option<&usize>, mem: &mut Memory<T>) -> (r: Option<T>)
    requires
        ptr is Some ==> decodable(*ptr->Some_0, old(mem)@),
    ensures
        ptr is None ==> r is None && final(mem)@ == old(mem)@,
        ptr is Some ==> r == Some(decoded(*ptr->Some_0, old(mem)@)) && final(mem)@
            == after_decode(*ptr->Some_0, old(mem)@),
        final(mem).used() == old(mem).used(),
{
    match ptr {
        None => None,
        Some(w) => Some(decode_usize(*w, mem)),
    }
}

/// Unpacks the address word in the slot that `ptr` points to, for a type that
/// does not fit a word; no slot gives `None` and leaves memory untouched.
pub fn decode_ptr_address<T>(ptr: Option<&usize>, mem: &mut Memory<T>) -> (r: Option<T>)
    requires
        ptr is Some ==> !fits_inline::<T>() && old(mem)@.contains_key(*ptr->Some_0),
    ensures
        ptr is None ==> r is None && final(mem)@ == old(mem)@,
        ptr is Some ==> r == Some(old(mem)@[*ptr->Some_0]) && final(mem)@ == old(mem)@.remove(
            *ptr->Some_0,
        ),
        final(mem).used() == old(mem).used(),
{
    match ptr {
        None => None,
        Some(w) => Some(decode_address(*w, mem)),
    }
}

} // verus!
