use crate::codec::{after_decode, decodable, decoded, encoded, fits_inline, inline_word, word_prefix};
use crate::repr::{
    le_value, lemma_bytes_of_value, lemma_le_value_bound, lemma_pow256_mono, lemma_value_of_bytes,
    lemma_word_range, pow256, Repr,
};
use vstd::layout::{align_of, size_of};
use vstd::prelude::*;

verus! {

/// In inline mode, decoding the word that encoding gave yields the original
/// value, whatever memory holds and wherever the container stood, and leaves
/// memory as it was.
pub proof fn lemma_round_trip_inline<T: Repr>(v: T, at: usize, m: Map<usize, T>)
    requires
        fits_inline::<T>(),
    ensures
        decodable(encoded(v, at), m),
        decoded(encoded(v, at), m) == v,
        after_decode(encoded(v, at), m) == m,
{
    let b = v.repr();
    T::lemma_repr(v);
    lemma_word_range();
    lemma_le_value_bound(b);
    lemma_pow256_mono(b.len(), size_of::<usize>());
    lemma_bytes_of_value(b);
    assert(encoded(v, at) as nat == le_value(b));
}

/// For a type larger than a word, decoding the word that encoding gave while
/// the container still stands at `at` yields the original value and empties
/// that address.
pub proof fn lemma_round_trip_address<T: Repr>(v: T, at: usize, m: Map<usize, T>)
    requires
        size_of::<T>() > size_of::<usize>(),
        m.contains_key(at),
        m[at] == v,
    ensures
        encoded(v, at) == at,
        decodable(encoded(v, at), m),
        decoded(encoded(v, at), m) == v,
        after_decode(encoded(v, at), m) == m.remove(at),
{
}

/// A type larger than a word always travels by address.
pub proof fn lemma_too_large_for_word<T>()
    requires
        size_of::<T>() > size_of::<usize>(),
    ensures
        !fits_inline::<T>(),
{
}

/// In inline mode, a word whose low-order bytes are a valid `T` and whose
/// other bytes are zero is given back by encoding the value decoded from it;
/// the decoded value's bytes are the word's low-order bytes.
pub proof fn lemma_reencode<T: Repr>(w: usize, m: Map<usize, T>)
    requires
        fits_inline::<T>(),
        decodable(w, m),
        (w as nat) < pow256(size_of::<T>()),
    ensures
        decoded(w, m).repr() == word_prefix::<T>(w),
        inline_word(decoded(w, m)) == w,
{
    T::lemma_of_repr(word_prefix::<T>(w));
    lemma_value_of_bytes(w as nat, size_of::<T>());
}

/// The mode depends on the type alone: in inline mode the word depends on the
/// value alone, not on where its container stands; in address mode the word
/// is that address.
pub proof fn lemma_mode_is_pure<T: Repr>(v: T, a: usize, b: usize)
    ensures
        fits_inline::<T>() ==> encoded(v, a) == encoded(v, b),
        !fits_inline::<T>() ==> encoded(v, a) == a && encoded(v, b) == b,
{
}

/// A zero-size value whose alignment fits a word travels inline as the word
/// zero, and decoding any word gives it back without reading memory.
pub proof fn lemma_zero_size<T: Repr>(v: T, w: usize, at: usize, m: Map<usize, T>)
    requires
        size_of::<T>() == 0,
        align_of::<T>() <= align_of::<usize>(),
    ensures
        fits_inline::<T>(),
        encoded(v, at) == 0,
        decodable(w, m),
        decoded(w, m) == v,
        after_decode(w, m) == m,
{
    T::lemma_repr(v);
    assert(v.repr() =~= Seq::<u8>::empty());
    assert(word_prefix::<T>(w) =~= Seq::<u8>::empty());
}

} // verus!
