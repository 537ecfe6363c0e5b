use no_drop::codec::{decode_address, decode_ptr, decode_ptr_address, decode_usize};
use no_drop::container::{Memory, NoDrop};
use no_drop::repr::Repr;

#[test]
fn inline_round_trip_u8() {
    let c = NoDrop::new(0xabu8);
    let w = c.encode_usize().unwrap();
    assert_eq!(w, 0xab);
    let mut m: Memory<u8> = Memory::new();
    assert_eq!(decode_usize::<u8>(w, &mut m), 0xab);
}

#[test]
fn inline_round_trip_u16() {
    let c = NoDrop::new(0x1234u16);
    let w = c.encode_usize().unwrap();
    assert_eq!(w, 0x1234);
    let mut m: Memory<u16> = Memory::new();
    assert_eq!(decode_usize::<u16>(w, &mut m), 0x1234);
}

#[test]
fn inline_round_trip_u32() {
    let c = NoDrop::new(0xdead_beefu32);
    let w = c.encode_usize().unwrap();
    assert_eq!(w, 0xdead_beef);
    let mut m: Memory<u32> = Memory::new();
    assert_eq!(decode_usize::<u32>(w, &mut m), 0xdead_beef);
}

#[test]
fn inline_round_trip_word() {
    let c = NoDrop::new(usize::MAX);
    let w = c.encode_usize().unwrap();
    assert_eq!(w, usize::MAX);
    let mut m: Memory<usize> = Memory::new();
    assert_eq!(decode_usize::<usize>(w, &mut m), usize::MAX);
}

#[test]
fn inline_round_trip_bool() {
    let mut m: Memory<bool> = Memory::new();
    let t = NoDrop::new(true).encode_usize().unwrap();
    let f = NoDrop::new(false).encode_usize().unwrap();
    assert_eq!(t, 1);
    assert_eq!(f, 0);
    assert!(decode_usize::<bool>(t, &mut m));
    assert!(!decode_usize::<bool>(f, &mut m));
}

#[test]
fn inline_high_bytes_stay_zero() {
    let w = NoDrop::new(0xffu8).encode_usize().unwrap();
    assert_eq!(w >> 8, 0);
    let w = NoDrop::new(0xffffu16).encode_usize().unwrap();
    assert_eq!(w, 0xffff);
}

#[test]
fn inline_decode_reads_low_bytes_only() {
    let mut m: Memory<u8> = Memory::new();
    assert_eq!(decode_usize::<u8>(0x1234, &mut m), 0x34);
}

#[test]
fn address_round_trip_u128() {
    let big: u128 = 0x0102_0304_0506_0708_090a_0b0c_0d0e_0f10;
    let mut m: Memory<u128> = Memory::new();
    let a = m.place(NoDrop::new(big));
    assert_eq!(a, 1);
    let w = m.encode_at(a);
    assert_eq!(w, a);
    assert_eq!(decode_usize::<u128>(w, &mut m), big);
    assert!(m.get(a).is_none());
}

#[test]
fn address_mode_keeps_other_slots() {
    let mut m: Memory<u128> = Memory::new();
    let a = m.place(NoDrop::new(1u128 << 100));
    let b = m.place(NoDrop::new(7u128));
    assert_ne!(a, b);
    let wb = m.encode_at(b);
    assert_eq!(decode_usize::<u128>(wb, &mut m), 7);
    assert_eq!(*m.get(a).unwrap().get(), 1u128 << 100);
    let wa = m.encode_at(a);
    assert_eq!(decode_usize::<u128>(wa, &mut m), 1u128 << 100);
}

#[test]
fn encode_is_repeatable() {
    let c = NoDrop::new(0x5a5au16);
    assert_eq!(c.encode_usize(), c.encode_usize());
    let mut small: Memory<u16> = Memory::new();
    let s = small.place(NoDrop::new(0x5a5au16));
    assert_eq!(small.encode_at(s), 0x5a5a);
    assert_eq!(Some(small.encode_at(s)), c.encode_usize());
    let mut m: Memory<u128> = Memory::new();
    let a = m.place(NoDrop::new(9u128));
    assert_eq!(m.encode_at(a), m.encode_at(a));
    assert_eq!(m.encode_at(a), a);
    assert_eq!(*m.get(a).unwrap().get(), 9);
}

#[test]
fn decode_ptr_null_slot_is_absent() {
    let mut m: Memory<u128> = Memory::new();
    let a = m.place(NoDrop::new(42u128));
    assert_eq!(decode_ptr::<u128>(None, &mut m), None);
    assert_eq!(*m.get(a).unwrap().get(), 42);
}

#[test]
fn decode_ptr_reads_the_slot() {
    let mut m: Memory<u32> = Memory::new();
    let w = NoDrop::new(0x0bad_f00du32).encode_usize().unwrap();
    let slot: usize = w;
    assert_eq!(decode_ptr::<u32>(Some(&slot), &mut m), Some(0x0bad_f00d));

    let mut big: Memory<u128> = Memory::new();
    let a = big.place(NoDrop::new(u128::MAX));
    let slot = big.encode_at(a);
    assert_eq!(decode_ptr::<u128>(Some(&slot), &mut big), Some(u128::MAX));
    assert!(big.get(a).is_none());
}

#[test]
fn zero_size_round_trip() {
    let w = NoDrop::new(()).encode_usize().unwrap();
    assert_eq!(w, 0);
    let mut m: Memory<()> = Memory::new();
    decode_usize::<()>(w, &mut m);
    decode_usize::<()>(99, &mut m);
    assert!(m.get(1).is_none());
}

#[test]
fn representation_bytes() {
    assert_eq!(0xdead_beefu32.to_bytes(), vec![0xef, 0xbe, 0xad, 0xde]);
    assert_eq!(u32::from_bytes(&[0xef, 0xbe, 0xad, 0xde]), 0xdead_beef);
    assert_eq!(0x0102u16.to_bytes(), vec![0x02, 0x01]);
    assert_eq!(true.to_bytes(), vec![1]);
    assert_eq!(().to_bytes(), Vec::<u8>::new());
    assert_eq!(u64::from_bytes(&[1, 0, 0, 0, 0, 0, 0, 0x80]), 0x8000_0000_0000_0001);
    let b = u128::MAX.to_bytes();
    assert_eq!(b.len(), 16);
    assert_eq!(u128::from_bytes(&b), u128::MAX);
}

#[test]
fn memory_addresses() {
    let mut m: Memory<u64> = Memory::new();
    assert!(m.get(0).is_none());
    assert!(m.get(1).is_none());
    let a = m.place(NoDrop::new(5));
    let b = m.place(NoDrop::new(6));
    assert_eq!((a, b), (1, 2));
    assert_eq!(m.take(a), Some(5));
    assert_eq!(m.take(a), None);
    assert_eq!(m.take(0), None);
    assert_eq!(*m.get(b).unwrap().get(), 6);
}

#[test]
fn inline_round_trip_signed() {
    let w = NoDrop::new(-1i32).encode_usize().unwrap();
    assert_eq!(w, 0xffff_ffff);
    let mut m: Memory<i32> = Memory::new();
    assert_eq!(decode_usize::<i32>(w, &mut m), -1);
    let w = NoDrop::new(-5i8).encode_usize().unwrap();
    assert_eq!(w, 0xfb);
    let mut m8: Memory<i8> = Memory::new();
    assert_eq!(decode_usize::<i8>(w, &mut m8), -5);
    let w = NoDrop::new(i16::MIN).encode_usize().unwrap();
    assert_eq!(w, 0x8000);
    let mut m16: Memory<i16> = Memory::new();
    assert_eq!(decode_usize::<i16>(w, &mut m16), i16::MIN);
    let w = NoDrop::new(-2isize).encode_usize().unwrap();
    assert_eq!(w, usize::MAX - 1);
    let mut mi: Memory<isize> = Memory::new();
    assert_eq!(decode_usize::<isize>(w, &mut mi), -2);
}

#[test]
fn signed_representation_bytes() {
    assert_eq!((-2i64).to_bytes(), vec![0xfe, 0xff, 0xff, 0xff, 0xff, 0xff, 0xff, 0xff]);
    assert_eq!(i64::from_bytes(&[0xfe, 0xff, 0xff, 0xff, 0xff, 0xff, 0xff, 0xff]), -2);
    let b = i128::MIN.to_bytes();
    assert_eq!(b[15], 0x80);
    assert_eq!(i128::from_bytes(&b), i128::MIN);
}

#[test]
fn large_type_has_no_inline_word() {
    assert_eq!(NoDrop::new(5u128).encode_usize(), None);
}

#[test]
fn reencode_decoded_word() {
    let mut m: Memory<u16> = Memory::new();
    let v = decode_usize::<u16>(0xbeef, &mut m);
    assert_eq!(NoDrop::new(v).encode_usize(), Some(0xbeef));
    let mut mb: Memory<bool> = Memory::new();
    let t = decode_usize::<bool>(1, &mut mb);
    assert_eq!(NoDrop::new(t).encode_usize(), Some(1));
}

#[test]
fn address_round_trip_array() {
    let mut m: Memory<[u64; 4]> = Memory::new();
    let a = m.place(NoDrop::new([1u64, 2, 3, 4]));
    let w = m.encode_address(a);
    assert_eq!(w, a);
    assert_ne!(w, 0);
    assert_eq!(decode_address::<[u64; 4]>(w, &mut m), [1, 2, 3, 4]);
    assert!(m.get(a).is_none());
}

#[test]
fn address_round_trip_string() {
    let mut m: Memory<String> = Memory::new();
    let a = m.place(NoDrop::new(String::from("hello")));
    let b = m.place(NoDrop::new(String::from("world")));
    let w = m.encode_address(a);
    assert_eq!(decode_address::<String>(w, &mut m), "hello");
    assert_eq!(m.get(b).unwrap().get(), "world");
}

#[test]
fn decode_ptr_address_slots() {
    let mut m: Memory<String> = Memory::new();
    assert_eq!(decode_ptr_address::<String>(None, &mut m), None);
    let mut arrays: Memory<[u64; 3]> = Memory::new();
    let a = arrays.place(NoDrop::new([7u64; 3]));
    let slot = arrays.encode_address(a);
    assert_eq!(decode_ptr_address::<[u64; 3]>(None, &mut arrays), None);
    assert!(arrays.get(a).is_some());
    assert_eq!(decode_ptr_address::<[u64; 3]>(Some(&slot), &mut arrays), Some([7u64; 3]));
    assert!(arrays.get(a).is_none());
}

#[test]
fn decode_ptr_null_for_small_types() {
    let mut m: Memory<u32> = Memory::new();
    assert_eq!(decode_ptr::<u32>(None, &mut m), None);
    let mut u: Memory<()> = Memory::new();
    assert_eq!(decode_ptr::<()>(None, &mut u), None);
    let w = NoDrop::new(5u16).encode_usize().unwrap();
    let mut m16: Memory<u16> = Memory::new();
    assert_eq!(decode_ptr::<u16>(Some(&w), &mut m16), Some(5));
}

#[test]
fn word_methods() {
    assert_eq!(0xdead_beefu32.to_word(), 0xdead_beef);
    assert_eq!(u32::from_word(0xdead_beef), 0xdead_beef);
    assert_eq!(u8::from_word(0x1234), 0x34);
    assert_eq!((-1i16).to_word(), 0xffff);
    assert_eq!(i16::from_word(0xffff), -1);
    assert_eq!(true.to_word(), 1);
    assert!(!bool::from_word(0x100));
    assert_eq!(().to_word(), 0);
    assert_eq!(usize::from_word(usize::MAX), usize::MAX);
    assert_eq!((-3isize).to_word(), usize::MAX - 2);
}
