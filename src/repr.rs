use vstd::layout::size_of;
use vstd::prelude::*;

verus! {

/// 256 raised to the power `k`.
pub open spec fn pow256(k: nat) -> nat
    decreases k,
{
    if k == 0 {
        1
    } else {
        256 * pow256((k - 1) as nat)
    }
}

/// The `k` low-order bytes of `n`, least significant first.
pub open spec fn le_bytes(n: nat, k: nat) -> Seq<u8>
    decreases k,
{
    if k == 0 {
        Seq::empty()
    } else {
        seq![(n % 256) as u8] + le_bytes(n / 256, (k - 1) as nat)
    }
}

/// The number whose bytes, least significant first, are `b`.
pub open spec fn le_value(b: Seq<u8>) -> nat
    decreases b.len(),
{
    if b.len() == 0 {
        0
    } else {
        b[0] as nat + 256 * le_value(b.drop_first())
    }
}

/// Powers of 256 are positive and grow with the exponent.
pub proof fn lemma_pow256_mono(j: nat, k: nat)
    requires
        j <= k,
    ensures
        0 < pow256(j) <= pow256(k),
    decreases k,
{
    if j < k {
        lemma_pow256_mono(j, (k - 1) as nat);
    } else if k > 0 {
        lemma_pow256_mono((k - 1) as nat, (k - 1) as nat);
    }
}

/// `le_bytes(n, k)` has `k` bytes.
pub proof fn lemma_le_bytes_len(n: nat, k: nat)
    ensures
        le_bytes(n, k).len() == k,
    decreases k,
{
    if k > 0 {
        lemma_le_bytes_len(n / 256, (k - 1) as nat);
    }
}

/// The number that `b` stands for is below `256^len(b)`.
pub proof fn lemma_le_value_bound(b: Seq<u8>)
    ensures
        le_value(b) < pow256(b.len()),
    decreases b.len(),
{
    if b.len() > 0 {
        let rest = b.drop_first();
        lemma_le_value_bound(rest);
        let v = le_value(rest);
        let p = pow256(rest.len());
        let d = b[0] as nat;
        assert(d + 256 * v < 256 * p) by (nonlinear_arith)
            requires
                v < p,
                d < 256,
        ;
    }
}

/// Reading back the `k` bytes of a number below `256^k` gives that number.
pub proof fn lemma_value_of_bytes(n: nat, k: nat)
    requires
        n < pow256(k),
    ensures
        le_value(le_bytes(n, k)) == n,
    decreases k,
{
    if k > 0 {
        let b = le_bytes(n, k);
        lemma_le_bytes_len(n, k);
        assert(b.drop_first() =~= le_bytes(n / 256, (k - 1) as nat));
        let p = pow256((k - 1) as nat);
        assert(n / 256 < p) by (nonlinear_arith)
            requires
                n < 256 * p,
        ;
        lemma_value_of_bytes(n / 256, (k - 1) as nat);
    }
}

/// Reading back the `k` low-order bytes of any number gives it modulo `256^k`.
pub proof fn lemma_value_of_bytes_mod(n: nat, k: nat)
    ensures
        le_value(le_bytes(n, k)) == n % pow256(k),
    decreases k,
{
    lemma_pow256_mono(k, k);
    if k > 0 {
        let b = le_bytes(n, k);
        lemma_le_bytes_len(n, k);
        assert(b.drop_first() =~= le_bytes(n / 256, (k - 1) as nat));
        lemma_value_of_bytes_mod(n / 256, (k - 1) as nat);
        lemma_pow256_mono((k - 1) as nat, (k - 1) as nat);
        vstd::arithmetic::div_mod::lemma_mod_breakdown(n as int, 256, pow256((k - 1) as nat) as int);
    }
}

/// Writing out the number that `b` stands for gives `b` back.
pub proof fn lemma_bytes_of_value(b: Seq<u8>)
    ensures
        le_bytes(le_value(b), b.len()) == b,
    decreases b.len(),
{
    if b.len() > 0 {
        let rest = b.drop_first();
        let v = le_value(b);
        lemma_bytes_of_value(rest);
        assert(v % 256 == b[0] as nat && v / 256 == le_value(rest)) by (nonlinear_arith)
            requires
                v == b[0] as nat + 256 * le_value(rest),
                b[0] < 256,
        ;
        assert(le_bytes(v, b.len()) =~= b);
    } else {
        assert(le_bytes(le_value(b), 0) =~= b);
    }
}

/// `256^16` is one past the largest `u128`.
pub proof fn lemma_pow256_16()
    ensures
        pow256(16) == u128::MAX as nat + 1,
{
    reveal_with_fuel(pow256, 17);
}

/// The number of bytes in a machine word, and the word's range.
pub proof fn lemma_word_range()
    ensures
        size_of::<usize>() == 4 || size_of::<usize>() == 8,
        pow256(size_of::<usize>()) == usize::MAX as nat + 1,
{
    broadcast use vstd::layout::layout_of_primitives;

    reveal_with_fuel(pow256, 9);
    assert(usize::BITS == 32 || usize::BITS == 64);
}

/// The `k` low-order bytes of `x`, least significant first.
pub fn bytes_le(x: u128, k: usize) -> (r: Vec<u8>)
    ensures
        r@ == le_bytes(x as nat, k as nat),
{
    let mut r: Vec<u8> = Vec::new();
    let mut y: u128 = x;
    let mut i: usize = 0;
    while i < k
        invariant
            i <= k,
            r@ + le_bytes(y as nat, (k - i) as nat) == le_bytes(x as nat, k as nat),
        decreases k - i,
    {
        let ghost r0 = r@;
        let ghost rest = le_bytes(y as nat / 256, (k - i - 1) as nat);
        let d: u8 = (y % 256) as u8;
        assert(le_bytes(y as nat, (k - i) as nat) == seq![d] + rest);
        r.push(d);
        y = y / 256;
        i = i + 1;
        assert(r0 + (seq![d] + rest) =~= r@ + rest);
    }
    assert(r@ + le_bytes(y as nat, 0) =~= r@);
    r
}

/// The number whose bytes, least significant first, are `b`.
pub fn value_le(b: &[u8]) -> (r: u128)
    requires
        b@.len() <= 16,
    ensures
        r as nat == le_value(b@),
{
    let n: usize = b.len();
    let mut r: u128 = 0;
    let mut i: usize = n;
    while i > 0
        invariant
            i <= n,
            n == b@.len() <= 16,
            r as nat == le_value(b@.subrange(i as int, n as int)),
            r < pow256((n - i) as nat),
        decreases i,
    {
        i = i - 1;
        let ghost s = b@.subrange(i as int, n as int);
        assert(s.drop_first() =~= b@.subrange(i + 1, n as int));
        let d: u8 = b[i];
        let ghost p = pow256((n - i - 1) as nat);
        proof {
            lemma_pow256_mono((n - i) as nat, 16);
            lemma_pow256_16();
            assert(r * 256 + d < 256 * p) by (nonlinear_arith)
                requires
                    r < p,
                    d < 256,
            ;
        }
        r = r * 256 + d as u128;
    }
    assert(b@.subrange(0, n as int) =~= b@);
    r
}

/// A type whose values can be copied byte for byte: each value has an object
/// representation of `size_of::<Self>()` bytes, the value can be rebuilt from
/// those bytes alone, and the value rebuilt from valid bytes has exactly those
/// bytes.
pub trait Repr: Sized {
    /// The bytes of the value, in memory order.
    spec fn repr(&self) -> Seq<u8>;

    /// Whether `b` is the representation of some value of the type.
    spec fn is_repr(b: Seq<u8>) -> bool;

    /// The value whose representation is `b`.
    spec fn of_repr(b: Seq<u8>) -> Self;

    /// A representation has the type's size and gives its value back.
    proof fn lemma_repr(v: Self)
        ensures
            v.repr().len() == size_of::<Self>(),
            Self::is_repr(v.repr()),
            Self::of_repr(v.repr()) == v,
    ;

    /// The value rebuilt from valid bytes has those bytes as its representation.
    proof fn lemma_of_repr(b: Seq<u8>)
        requires
            Self::is_repr(b),
        ensures
            Self::of_repr(b).repr() == b,
    ;

    /// The value's bytes read as a number, least significant first, for a
    /// type no larger than a word.
    fn to_word(&self) -> (r: usize)
        requires
            size_of::<Self>() <= size_of::<usize>(),
        ensures
            r as nat == le_value(self.repr()),
    ;

    /// Rebuilds a value from the low-order bytes of a word, for a type no
    /// larger than a word.
    fn from_word(w: usize) -> (r: Self)
        requires
            size_of::<Self>() <= size_of::<usize>(),
            Self::is_repr(le_bytes(w as nat, size_of::<Self>())),
        ensures
            r == Self::of_repr(le_bytes(w as nat, size_of::<Self>())),
    ;

    /// Copies out the representation of the value.
    fn to_bytes(&self) -> (r: Vec<u8>)
        ensures
            r@ == self.repr(),
    ;

    /// Rebuilds a value from its representation.
    fn from_bytes(b: &[u8]) -> (r: Self)
        requires
            Self::is_repr(b@),
        ensures
            r == Self::of_repr(b@),
    ;
}

impl Repr for () {
    open spec fn repr(&self) -> Seq<u8> {
        Seq::empty()
    }

    open spec fn is_repr(b: Seq<u8>) -> bool {
        b.len() == 0
    }

    open spec fn of_repr(b: Seq<u8>) -> () {
        ()
    }

    proof fn lemma_repr(v: ()) {
        broadcast use vstd::layout::layout_of_unit_tuple;

    }

    proof fn lemma_of_repr(b: Seq<u8>) {
        assert(b =~= Seq::<u8>::empty());
    }

    fn to_word(&self) -> (r: usize) {
        0
    }

    fn from_word(w: usize) -> (r: Self) {
        ()
    }

    fn to_bytes(&self) -> (r: Vec<u8>) {
        Vec::new()
    }

    fn from_bytes(b: &[u8]) -> (r: ()) {
    }
}

impl Repr for bool {
    open spec fn repr(&self) -> Seq<u8> {
        seq![if *self { 1u8 } else { 0u8 }]
    }

    open spec fn is_repr(b: Seq<u8>) -> bool {
        b.len() == 1 && b[0] <= 1
    }

    open spec fn of_repr(b: Seq<u8>) -> bool {
        b[0] == 1
    }

    proof fn lemma_repr(v: bool) {
        broadcast use vstd::layout::layout_of_primitives;

    }

    proof fn lemma_of_repr(b: Seq<u8>) {
        assert(Self::of_repr(b).repr() =~= b);
    }

    fn to_word(&self) -> (r: usize) {
        proof {
            reveal_with_fuel(le_value, 2);
            assert(self.repr().drop_first() =~= Seq::<u8>::empty());
        }
        if *self {
            1
        } else {
            0
        }
    }

    fn from_word(w: usize) -> (r: Self) {
        proof {
            broadcast use vstd::layout::layout_of_primitives;

            reveal_with_fuel(le_bytes, 2);
        }
        w % 256 == 1
    }

    fn to_bytes(&self) -> (r: Vec<u8>) {
        let d: u8 = if *self { 1 } else { 0 };
        let mut r: Vec<u8> = Vec::new();
        r.push(d);
        assert(r@ =~= self.repr());
        r
    }

    fn from_bytes(b: &[u8]) -> (r: bool) {
        b[0] == 1
    }
}

impl Repr for u8 {
    open spec fn repr(&self) -> Seq<u8> {
        le_bytes(*self as nat, 1)
    }

    open spec fn is_repr(b: Seq<u8>) -> bool {
        b.len() == 1
    }

    open spec fn of_repr(b: Seq<u8>) -> u8 {
        le_value(b) as u8
    }

    proof fn lemma_repr(v: u8) {
        broadcast use vstd::layout::layout_of_primitives;

        reveal_with_fuel(pow256, 2);
        lemma_le_bytes_len(v as nat, 1);
        lemma_value_of_bytes(v as nat, 1);
    }

    proof fn lemma_of_repr(b: Seq<u8>) {
        reveal_with_fuel(pow256, 2);
        lemma_le_value_bound(b);
        lemma_bytes_of_value(b);
    }

    fn to_word(&self) -> (r: usize) {
        proof {
            broadcast use vstd::layout::layout_of_primitives;

            lemma_word_range();
            reveal_with_fuel(pow256, 17);
            lemma_value_of_bytes(*self as nat, 1);
        }
        *self as usize
    }

    fn from_word(w: usize) -> (r: Self) {
        proof {
            broadcast use vstd::layout::layout_of_primitives;

            lemma_word_range();
            reveal_with_fuel(pow256, 17);
            lemma_value_of_bytes_mod(w as nat, 1);
        }
        (w as u128 % 0x100) as u8
    }

    fn to_bytes(&self) -> (r: Vec<u8>) {
        bytes_le(*self as u128, 1)
    }

    fn from_bytes(b: &[u8]) -> (r: u8) {
        value_le(b) as u8
    }
}

impl Repr for u16 {
    open spec fn repr(&self) -> Seq<u8> {
        le_bytes(*self as nat, 2)
    }

    open spec fn is_repr(b: Seq<u8>) -> bool {
        b.len() == 2
    }

    open spec fn of_repr(b: Seq<u8>) -> u16 {
        le_value(b) as u16
    }

    proof fn lemma_repr(v: u16) {
        broadcast use vstd::layout::layout_of_primitives;

        reveal_with_fuel(pow256, 3);
        lemma_le_bytes_len(v as nat, 2);
        lemma_value_of_bytes(v as nat, 2);
    }

    proof fn lemma_of_repr(b: Seq<u8>) {
        reveal_with_fuel(pow256, 3);
        lemma_le_value_bound(b);
        lemma_bytes_of_value(b);
    }

    fn to_word(&self) -> (r: usize) {
        proof {
            broadcast use vstd::layout::layout_of_primitives;

            lemma_word_range();
            reveal_with_fuel(pow256, 17);
            lemma_value_of_bytes(*self as nat, 2);
        }
        *self as usize
    }

    fn from_word(w: usize) -> (r: Self) {
        proof {
            broadcast use vstd::layout::layout_of_primitives;

            lemma_word_range();
            reveal_with_fuel(pow256, 17);
            lemma_value_of_bytes_mod(w as nat, 2);
        }
        (w as u128 % 0x10000) as u16
    }

    fn to_bytes(&self) -> (r: Vec<u8>) {
        bytes_le(*self as u128, 2)
    }

    fn from_bytes(b: &[u8]) -> (r: u16) {
        value_le(b) as u16
    }
}

impl Repr for u32 {
    open spec fn repr(&self) -> Seq<u8> {
        le_bytes(*self as nat, 4)
    }

    open spec fn is_repr(b: Seq<u8>) -> bool {
        b.len() == 4
    }

    open spec fn of_repr(b: Seq<u8>) -> u32 {
        le_value(b) as u32
    }

    proof fn lemma_repr(v: u32) {
        broadcast use vstd::layout::layout_of_primitives;

        reveal_with_fuel(pow256, 5);
        lemma_le_bytes_len(v as nat, 4);
        lemma_value_of_bytes(v as nat, 4);
    }

    proof fn lemma_of_repr(b: Seq<u8>) {
        reveal_with_fuel(pow256, 5);
        lemma_le_value_bound(b);
        lemma_bytes_of_value(b);
    }

    fn to_word(&self) -> (r: usize) {
        proof {
            broadcast use vstd::layout::layout_of_primitives;

            lemma_word_range();
            reveal_with_fuel(pow256, 17);
            lemma_value_of_bytes(*self as nat, 4);
        }
        *self as usize
    }

    fn from_word(w: usize) -> (r: Self) {
        proof {
            broadcast use vstd::layout::layout_of_primitives;

            lemma_word_range();
            reveal_with_fuel(pow256, 17);
            lemma_value_of_bytes_mod(w as nat, 4);
        }
        (w as u128 % 0x100000000) as u32
    }

    fn to_bytes(&self) -> (r: Vec<u8>) {
        bytes_le(*self as u128, 4)
    }

    fn from_bytes(b: &[u8]) -> (r: u32) {
        value_le(b) as u32
    }
}

impl Repr for u64 {
    open spec fn repr(&self) -> Seq<u8> {
        le_bytes(*self as nat, 8)
    }

    open spec fn is_repr(b: Seq<u8>) -> bool {
        b.len() == 8
    }

    open spec fn of_repr(b: Seq<u8>) -> u64 {
        le_value(b) as u64
    }

    proof fn lemma_repr(v: u64) {
        broadcast use vstd::layout::layout_of_primitives;

        reveal_with_fuel(pow256, 9);
        lemma_le_bytes_len(v as nat, 8);
        lemma_value_of_bytes(v as nat, 8);
    }

    proof fn lemma_of_repr(b: Seq<u8>) {
        reveal_with_fuel(pow256, 9);
        lemma_le_value_bound(b);
        lemma_bytes_of_value(b);
    }

    fn to_word(&self) -> (r: usize) {
        proof {
            broadcast use vstd::layout::layout_of_primitives;

            lemma_word_range();
            reveal_with_fuel(pow256, 17);
            lemma_value_of_bytes(*self as nat, 8);
        }
        *self as usize
    }

    fn from_word(w: usize) -> (r: Self) {
        proof {
            broadcast use vstd::layout::layout_of_primitives;

            lemma_word_range();
            reveal_with_fuel(pow256, 17);
            lemma_value_of_bytes_mod(w as nat, 8);
        }
        (w as u128 % 0x10000000000000000) as u64
    }

    fn to_bytes(&self) -> (r: Vec<u8>) {
        bytes_le(*self as u128, 8)
    }

    fn from_bytes(b: &[u8]) -> (r: u64) {
        value_le(b) as u64
    }
}

impl Repr for u128 {
    open spec fn repr(&self) -> Seq<u8> {
        le_bytes(*self as nat, 16)
    }

    open spec fn is_repr(b: Seq<u8>) -> bool {
        b.len() == 16
    }

    open spec fn of_repr(b: Seq<u8>) -> u128 {
        le_value(b) as u128
    }

    proof fn lemma_repr(v: u128) {
        broadcast use vstd::layout::layout_of_primitives;

        reveal_with_fuel(pow256, 17);
        lemma_le_bytes_len(v as nat, 16);
        lemma_value_of_bytes(v as nat, 16);
    }

    proof fn lemma_of_repr(b: Seq<u8>) {
        reveal_with_fuel(pow256, 17);
        lemma_le_value_bound(b);
        lemma_bytes_of_value(b);
    }

    fn to_word(&self) -> (r: usize) {
        proof {
            broadcast use vstd::layout::layout_of_primitives;

            lemma_word_range();
            reveal_with_fuel(pow256, 17);
            lemma_value_of_bytes(*self as nat, 16);
        }
        *self as usize
    }

    fn from_word(w: usize) -> (r: Self) {
        proof {
            broadcast use vstd::layout::layout_of_primitives;

            lemma_word_range();
            reveal_with_fuel(pow256, 17);
            lemma_value_of_bytes_mod(w as nat, 16);
        }
        w as u128
    }

    fn to_bytes(&self) -> (r: Vec<u8>) {
        bytes_le(*self as u128, 16)
    }

    fn from_bytes(b: &[u8]) -> (r: u128) {
        value_le(b) as u128
    }
}

impl Repr for i8 {
    /// Two's complement, as the bytes of the `u8` with the same bits.
    open spec fn repr(&self) -> Seq<u8> {
        le_bytes(*self as u8 as nat, 1)
    }

    open spec fn is_repr(b: Seq<u8>) -> bool {
        b.len() == 1
    }

    open spec fn of_repr(b: Seq<u8>) -> i8 {
        le_value(b) as u8 as i8
    }

    proof fn lemma_repr(v: i8) {
        broadcast use vstd::layout::layout_of_primitives;

        reveal_with_fuel(pow256, 2);
        lemma_le_bytes_len(v as u8 as nat, 1);
        lemma_value_of_bytes(v as u8 as nat, 1);
        assert(v as u8 as i8 == v) by (bit_vector);
    }

    proof fn lemma_of_repr(b: Seq<u8>) {
        reveal_with_fuel(pow256, 2);
        lemma_le_value_bound(b);
        lemma_bytes_of_value(b);
        let x = le_value(b) as u8;
        assert(x as i8 as u8 == x) by (bit_vector);
    }

    fn to_word(&self) -> (r: usize) {
        proof {
            broadcast use vstd::layout::layout_of_primitives;

            lemma_word_range();
            reveal_with_fuel(pow256, 17);
            lemma_value_of_bytes(*self as u8 as nat, 1);
        }
        *self as u8 as usize
    }

    fn from_word(w: usize) -> (r: Self) {
        proof {
            broadcast use vstd::layout::layout_of_primitives;

            lemma_word_range();
            reveal_with_fuel(pow256, 17);
            lemma_value_of_bytes_mod(w as nat, 1);
        }
        (w as u128 % 0x100) as u8 as i8
    }

    fn to_bytes(&self) -> (r: Vec<u8>) {
        bytes_le(*self as u8 as u128, 1)
    }

    fn from_bytes(b: &[u8]) -> (r: i8) {
        value_le(b) as u8 as i8
    }
}

impl Repr for i16 {
    /// Two's complement, as the bytes of the `u16` with the same bits.
    open spec fn repr(&self) -> Seq<u8> {
        le_bytes(*self as u16 as nat, 2)
    }

    open spec fn is_repr(b: Seq<u8>) -> bool {
        b.len() == 2
    }

    open spec fn of_repr(b: Seq<u8>) -> i16 {
        le_value(b) as u16 as i16
    }

    proof fn lemma_repr(v: i16) {
        broadcast use vstd::layout::layout_of_primitives;

        reveal_with_fuel(pow256, 3);
        lemma_le_bytes_len(v as u16 as nat, 2);
        lemma_value_of_bytes(v as u16 as nat, 2);
        assert(v as u16 as i16 == v) by (bit_vector);
    }

    proof fn lemma_of_repr(b: Seq<u8>) {
        reveal_with_fuel(pow256, 3);
        lemma_le_value_bound(b);
        lemma_bytes_of_value(b);
        let x = le_value(b) as u16;
        assert(x as i16 as u16 == x) by (bit_vector);
    }

    fn to_word(&self) -> (r: usize) {
        proof {
            broadcast use vstd::layout::layout_of_primitives;

            lemma_word_range();
            reveal_with_fuel(pow256, 17);
            lemma_value_of_bytes(*self as u16 as nat, 2);
        }
        *self as u16 as usize
    }

    fn from_word(w: usize) -> (r: Self) {
        proof {
            broadcast use vstd::layout::layout_of_primitives;

            lemma_word_range();
            reveal_with_fuel(pow256, 17);
            lemma_value_of_bytes_mod(w as nat, 2);
        }
        (w as u128 % 0x10000) as u16 as i16
    }

    fn to_bytes(&self) -> (r: Vec<u8>) {
        bytes_le(*self as u16 as u128, 2)
    }

    fn from_bytes(b: &[u8]) -> (r: i16) {
        value_le(b) as u16 as i16
    }
}

impl Repr for i32 {
    /// Two's complement, as the bytes of the `u32` with the same bits.
    open spec fn repr(&self) -> Seq<u8> {
        le_bytes(*self as u32 as nat, 4)
    }

    open spec fn is_repr(b: Seq<u8>) -> bool {
        b.len() == 4
    }

    open spec fn of_repr(b: Seq<u8>) -> i32 {
        le_value(b) as u32 as i32
    }

    proof fn lemma_repr(v: i32) {
        broadcast use vstd::layout::layout_of_primitives;

        reveal_with_fuel(pow256, 5);
        lemma_le_bytes_len(v as u32 as nat, 4);
        lemma_value_of_bytes(v as u32 as nat, 4);
        assert(v as u32 as i32 == v) by (bit_vector);
    }

    proof fn lemma_of_repr(b: Seq<u8>) {
        reveal_with_fuel(pow256, 5);
        lemma_le_value_bound(b);
        lemma_bytes_of_value(b);
        let x = le_value(b) as u32;
        assert(x as i32 as u32 == x) by (bit_vector);
    }

    fn to_word(&self) -> (r: usize) {
        proof {
            broadcast use vstd::layout::layout_of_primitives;

            lemma_word_range();
            reveal_with_fuel(pow256, 17);
            lemma_value_of_bytes(*self as u32 as nat, 4);
        }
        *self as u32 as usize
    }

    fn from_word(w: usize) -> (r: Self) {
        proof {
            broadcast use vstd::layout::layout_of_primitives;

            lemma_word_range();
            reveal_with_fuel(pow256, 17);
            lemma_value_of_bytes_mod(w as nat, 4);
        }
        (w as u128 % 0x100000000) as u32 as i32
    }

    fn to_bytes(&self) -> (r: Vec<u8>) {
        bytes_le(*self as u32 as u128, 4)
    }

    fn from_bytes(b: &[u8]) -> (r: i32) {
        value_le(b) as u32 as i32
    }
}

impl Repr for i64 {
    /// Two's complement, as the bytes of the `u64` with the same bits.
    open spec fn repr(&self) -> Seq<u8> {
        le_bytes(*self as u64 as nat, 8)
    }

    open spec fn is_repr(b: Seq<u8>) -> bool {
        b.len() == 8
    }

    open spec fn of_repr(b: Seq<u8>) -> i64 {
        le_value(b) as u64 as i64
    }

    proof fn lemma_repr(v: i64) {
        broadcast use vstd::layout::layout_of_primitives;

        reveal_with_fuel(pow256, 9);
        lemma_le_bytes_len(v as u64 as nat, 8);
        lemma_value_of_bytes(v as u64 as nat, 8);
        assert(v as u64 as i64 == v) by (bit_vector);
    }

    proof fn lemma_of_repr(b: Seq<u8>) {
        reveal_with_fuel(pow256, 9);
        lemma_le_value_bound(b);
        lemma_bytes_of_value(b);
        let x = le_value(b) as u64;
        assert(x as i64 as u64 == x) by (bit_vector);
    }

    fn to_word(&self) -> (r: usize) {
        proof {
            broadcast use vstd::layout::layout_of_primitives;

            lemma_word_range();
            reveal_with_fuel(pow256, 17);
            lemma_value_of_bytes(*self as u64 as nat, 8);
        }
        *self as u64 as usize
    }

    fn from_word(w: usize) -> (r: Self) {
        proof {
            broadcast use vstd::layout::layout_of_primitives;

            lemma_word_range();
            reveal_with_fuel(pow256, 17);
            lemma_value_of_bytes_mod(w as nat, 8);
        }
        (w as u128 % 0x10000000000000000) as u64 as i64
    }

    fn to_bytes(&self) -> (r: Vec<u8>) {
        bytes_le(*self as u64 as u128, 8)
    }

    fn from_bytes(b: &[u8]) -> (r: i64) {
        value_le(b) as u64 as i64
    }
}

impl Repr for i128 {
    /// Two's complement, as the bytes of the `u128` with the same bits.
    open spec fn repr(&self) -> Seq<u8> {
        le_bytes(*self as u128 as nat, 16)
    }

    open spec fn is_repr(b: Seq<u8>) -> bool {
        b.len() == 16
    }

    open spec fn of_repr(b: Seq<u8>) -> i128 {
        le_value(b) as u128 as i128
    }

    proof fn lemma_repr(v: i128) {
        broadcast use vstd::layout::layout_of_primitives;

        reveal_with_fuel(pow256, 17);
        lemma_le_bytes_len(v as u128 as nat, 16);
        lemma_value_of_bytes(v as u128 as nat, 16);
        assert(v as u128 as i128 == v) by (bit_vector);
    }

    proof fn lemma_of_repr(b: Seq<u8>) {
        reveal_with_fuel(pow256, 17);
        lemma_le_value_bound(b);
        lemma_bytes_of_value(b);
        let x = le_value(b) as u128;
        assert(x as i128 as u128 == x) by (bit_vector);
    }

    fn to_word(&self) -> (r: usize) {
        proof {
            broadcast use vstd::layout::layout_of_primitives;

            lemma_word_range();
            reveal_with_fuel(pow256, 17);
            lemma_value_of_bytes(*self as u128 as nat, 16);
        }
        *self as u128 as usize
    }

    fn from_word(w: usize) -> (r: Self) {
        proof {
            broadcast use vstd::layout::layout_of_primitives;

            lemma_word_range();
            reveal_with_fuel(pow256, 17);
            lemma_value_of_bytes_mod(w as nat, 16);
        }
        w as u128 as i128
    }

    fn to_bytes(&self) -> (r: Vec<u8>) {
        bytes_le(*self as u128 as u128, 16)
    }

    fn from_bytes(b: &[u8]) -> (r: i128) {
        value_le(b) as u128 as i128
    }
}

impl Repr for usize {
    open spec fn repr(&self) -> Seq<u8> {
        le_bytes(*self as nat, size_of::<usize>())
    }

    open spec fn is_repr(b: Seq<u8>) -> bool {
        b.len() == size_of::<usize>()
    }

    open spec fn of_repr(b: Seq<u8>) -> usize {
        le_value(b) as usize
    }

    proof fn lemma_repr(v: usize) {
        lemma_word_range();
        lemma_le_bytes_len(v as nat, size_of::<usize>());
        lemma_value_of_bytes(v as nat, size_of::<usize>());
    }

    proof fn lemma_of_repr(b: Seq<u8>) {
        lemma_word_range();
        lemma_le_value_bound(b);
        lemma_bytes_of_value(b);
    }

    fn to_word(&self) -> (r: usize) {
        proof {
            lemma_word_range();
            lemma_value_of_bytes(*self as nat, size_of::<usize>());
        }
        *self
    }

    fn from_word(w: usize) -> (r: Self) {
        proof {
            lemma_word_range();
            lemma_value_of_bytes(w as nat, size_of::<usize>());
        }
        w
    }

    fn to_bytes(&self) -> (r: Vec<u8>) {
        bytes_le(*self as u128, std::mem::size_of::<usize>())
    }

    fn from_bytes(b: &[u8]) -> (r: usize) {
        proof {
            lemma_word_range();
        }
        value_le(b) as usize
    }
}

impl Repr for isize {
    /// Two's complement, as the bytes of the `usize` with the same bits.
    open spec fn repr(&self) -> Seq<u8> {
        le_bytes(*self as usize as nat, size_of::<usize>())
    }

    open spec fn is_repr(b: Seq<u8>) -> bool {
        b.len() == size_of::<usize>()
    }

    open spec fn of_repr(b: Seq<u8>) -> isize {
        le_value(b) as usize as isize
    }

    proof fn lemma_repr(v: isize) {
        broadcast use vstd::layout::layout_of_primitives;

        lemma_word_range();
        lemma_le_bytes_len(v as usize as nat, size_of::<usize>());
        lemma_value_of_bytes(v as usize as nat, size_of::<usize>());
        assert(v as usize as isize == v) by (bit_vector);
    }

    proof fn lemma_of_repr(b: Seq<u8>) {
        lemma_word_range();
        lemma_le_value_bound(b);
        lemma_bytes_of_value(b);
        let x = le_value(b) as usize;
        assert(x as isize as usize == x) by (bit_vector);
    }

    fn to_word(&self) -> (r: usize) {
        proof {
            lemma_word_range();
            lemma_value_of_bytes(*self as usize as nat, size_of::<usize>());
        }
        *self as usize
    }

    fn from_word(w: usize) -> (r: Self) {
        proof {
            lemma_word_range();
            lemma_value_of_bytes(w as nat, size_of::<usize>());
        }
        w as isize
    }

    fn to_bytes(&self) -> (r: Vec<u8>) {
        bytes_le(*self as usize as u128, std::mem::size_of::<usize>())
    }

    fn from_bytes(b: &[u8]) -> (r: isize) {
        proof {
            lemma_word_range();
        }
        value_le(b) as usize as isize
    }
}

} // verus!
