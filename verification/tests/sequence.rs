use sequence_int::{SeqU16, SeqU24, SeqU32, SeqU64, SeqU8, SequenceInt};

type S14 = SequenceInt<u32, 14>;
type S64 = SequenceInt<u64, 64>;

#[test]
fn test_serial_ints() {
    assert!(SeqU16::from(1000u16) > SeqU16::from(999u16));
    assert!(SeqU16::from(65530u16) < SeqU16::from(10u16));
    assert!(SeqU16::from(7u16) == SeqU16::from(7u16));

    assert!(SeqU24::from(16_777_206u32) < SeqU24::from(16_777_208u32));
    assert!(SeqU24::from(16_777_206u32) < SeqU24::from(10u32));
    assert!(SeqU24::from(16_777_226u32) == SeqU24::from(10u32));

    assert!(SeqU32::from(1000u32).add(7u32) == SeqU32::from(1007u32));
    assert!(SeqU32::from(4_294_967_290u32).add(10u32) == SeqU32::from(4u32));

    let max: u32 = (1u32 << 14) - 1;
    assert!(S14::from(max - 2) < S14::from(5));
    assert!(S14::from(max).add(2u32) == S14::from(1));

    let a = S64::from(u64::MAX - 2);
    let b = S64::from(3u64);
    assert!(a < b);
    assert!(S64::from(u64::MAX).add(2u64) == S64::from(1u64));

    assert!(SeqU16::from(1000u16) > SeqU16::from(999u16));
    assert!(SeqU16::from(65530u16) < SeqU16::from(10u16));
    assert!(SeqU16::from(7u16) == SeqU16::from(7u16));

    assert!(SeqU24::from(16777206u32) < SeqU24::from(16777208u32));
    assert!(SeqU24::from(16777206u32) < SeqU24::from(10u32));
    assert!(SeqU24::from(16777226u32) == SeqU24::from(10u32));

    assert!(SeqU32::from(1000u32).add(7) == SeqU32::from(1007u32));
    assert!(SeqU32::from(4294967290u32).add(10) == SeqU32::from(4u32));

    let mut x = SeqU32::from(0xffff_fffe);
    x.inc();
    assert!(x == SeqU32::from(0xffff_ffff_u32));
    x.inc();
    assert!(x == SeqU32::from(0));

    assert!(SeqU16::from(1000) < SeqU16::from(33000));
    assert!(SeqU16::from(1000) > SeqU16::from(34000));
}

#[test]
fn test_masking_invariant() {
    // Construction masks away every bit at or above position BITS.
    let v = S14::from(0xffff_ffff);
    assert!(v.0 < (1u32 << 14));
    assert!(v.0 == 0x3fff);
    let w = SeqU24::from(0xff00_0001);
    assert!(w.0 == 0x0000_0001);
    let z = SeqU8::from(0xffu8);
    assert!(z.0 == 0xff);
}

#[test]
fn test_equality() {
    // Reflexive, symmetric, and exactly payload equality after masking.
    let a = SeqU16::from(7u16);
    assert!(a == a);
    let b = SeqU24::from(16_777_226u32);
    let c = SeqU24::from(10u32);
    assert!(b == c);
    assert!(c == b);
    assert!(SeqU16::from(7u16) != SeqU16::from(8u16));
    // Equality is never wraparound-aware "close enough".
    assert!(SeqU16::from(65535u16) != SeqU16::from(0u16));
    assert!(a <= a);
    assert!(a >= a);
}

#[test]
fn test_wraparound_ordering_16bit() {
    assert!(SeqU16::from(1000u16) > SeqU16::from(999u16));
    assert!(SeqU16::from(65530u16) < SeqU16::from(10u16));
    // Crossing the half-range boundary flips the relation.
    assert!(SeqU16::from(1000u16) < SeqU16::from(33000u16));
    assert!(SeqU16::from(1000u16) > SeqU16::from(34000u16));
}

#[test]
fn test_24bit_wraparound() {
    assert!(SeqU24::from(16_777_206u32) < SeqU24::from(16_777_208u32));
    assert!(SeqU24::from(16_777_206u32) < SeqU24::from(10u32));
    assert!(SeqU24::from(16_777_226u32) == SeqU24::from(10u32));
}

#[test]
fn test_offset_arithmetic() {
    assert!(SeqU32::from(1000u32).add(7u32) == SeqU32::from(1007u32));
    assert!(SeqU32::from(4_294_967_290u32).add(10u32) == SeqU32::from(4u32));
    // Subtraction is the exact inverse walk on the ring.
    assert!(SeqU32::from(1007u32).sub(7u32) == SeqU32::from(1000u32));
    assert!(SeqU32::from(4u32).sub(10u32) == SeqU32::from(4_294_967_290u32));
    assert!(SeqU16::from(5u16).sub(10u16) == SeqU16::from(65531u16));
}

#[test]
fn test_arbitrary_width_14bit() {
    let max: u32 = (1u32 << 14) - 1;
    assert!(S14::from(max - 2) < S14::from(5));
    assert!(S14::from(max).add(2u32) == S14::from(1));
}

#[test]
fn test_full_width() {
    // BITS equal to the storage width: masking is the identity.
    assert!(S64::from(u64::MAX).0 == u64::MAX);
    assert!(S64::from(u64::MAX).add(2u64) == S64::from(1u64));
    assert!(S64::from(u64::MAX - 2) < S64::from(3u64));
    assert!(SeqU8::from(255u8).add(1u8) == SeqU8::from(0u8));
}

#[test]
fn test_increment_wraparound() {
    let mut x = SeqU32::from(0xffff_fffe);
    x.inc();
    assert!(x == SeqU32::from(0xffff_ffff));
    x.inc();
    assert!(x == SeqU32::from(0));
}

#[test]
fn test_decrement_wraparound() {
    let mut x = SeqU16::from(1u16);
    x.dec();
    assert!(x == SeqU16::from(0u16));
    x.dec();
    assert!(x == SeqU16::from(65535u16));
    let mut y = S14::from(0);
    y.dec();
    assert!(y.0 == (1u32 << 14) - 1);
}

#[test]
fn test_half_range_tie() {
    // A difference of exactly half the ring counts as "behind" from either
    // side: both values compare Greater to each other.
    assert!(SeqU16::from(0u16) > SeqU16::from(32768u16));
    assert!(SeqU16::from(32768u16) > SeqU16::from(0u16));
}

#[test]
fn test_non_transitive_cycle() {
    // Three values spaced about a third of the ring apart form a cycle:
    // a < b, b < c, and yet c < a. This is inherent to the wraparound
    // ordering and deliberately not "fixed".
    let a = SeqU16::from(0u16);
    let b = SeqU16::from(22000u16);
    let c = SeqU16::from(44000u16);
    assert!(a < b);
    assert!(b < c);
    assert!(c < a);
}
