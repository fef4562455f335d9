//! The storage layer: a sealed trait over the four native unsigned widths
//! that a sequence number can live in, exposing exactly the capabilities the
//! wraparound arithmetic needs (wrapping add/subtract, left shift, bitwise
//! AND, comparisons and a few distinguished values), each with a contract
//! stated over the value as a natural number.

use vstd::arithmetic::div_mod::{
    lemma_mod_add_multiples_vanish, lemma_mod_sub_multiples_vanish, lemma_small_mod,
};
use vstd::arithmetic::power2::{lemma2_to64, pow2};
use vstd::bits::{
    lemma_u16_low_bits_mask_is_mod, lemma_u16_pow2_no_overflow, lemma_u16_shl_is_mul,
    lemma_u32_low_bits_mask_is_mod, lemma_u32_pow2_no_overflow, lemma_u32_shl_is_mul,
    lemma_u64_low_bits_mask_is_mod, lemma_u64_pow2_no_overflow, lemma_u64_shl_is_mul,
    lemma_u8_low_bits_mask_is_mod, lemma_u8_pow2_no_overflow, lemma_u8_shl_is_mul, low_bits_mask,
};
use vstd::prelude::*;

verus! {

/// Marker restricting `UInt` to the four native unsigned widths below.
pub trait Sealed {}

/// A native unsigned integer usable as the storage of a sequence number.
///
/// `as_nat` is the mathematical value of the integer and `width` its bit
/// width; every executable capability is specified against those two.
pub trait UInt: Sealed + Sized + Copy {
    /// The bit width of the storage type.
    spec fn width() -> nat;

    /// The value as a natural number.
    spec fn as_nat(self) -> nat;

    /// Every value fits in `width` bits.
    proof fn lemma_as_nat_bound(self)
        ensures
            self.as_nat() < pow2(Self::width()),
    ;

    /// The bit width, as a runtime value.
    fn storage_bits() -> (r: u32)
        ensures
            r as nat == Self::width(),
    ;

    /// The value zero.
    fn zero() -> (r: Self)
        ensures
            r.as_nat() == 0,
    ;

    /// The value one.
    fn one() -> (r: Self)
        ensures
            r.as_nat() == 1,
    ;

    /// The all-ones value, the largest this width can hold.
    fn max_value() -> (r: Self)
        ensures
            r.as_nat() == pow2(Self::width()) - 1,
    ;

    /// Equality of the underlying values.
    fn eq_value(self, rhs: Self) -> (r: bool)
        ensures
            r <==> self.as_nat() == rhs.as_nat(),
    ;

    /// Plain integer less-than of the underlying values.
    fn lt_value(self, rhs: Self) -> (r: bool)
        ensures
            r <==> self.as_nat() < rhs.as_nat(),
    ;

    /// Addition modulo `2^width`.
    fn wrapping_add(self, rhs: Self) -> (r: Self)
        ensures
            r.as_nat() == (self.as_nat() + rhs.as_nat()) % pow2(Self::width()),
    ;

    /// Subtraction modulo `2^width`.
    fn wrapping_sub(self, rhs: Self) -> (r: Self)
        ensures
            r.as_nat() == (self.as_nat() - rhs.as_nat()) % (pow2(Self::width()) as int),
    ;

    /// Left shift, restricted to shifts whose result fits the width.
    fn shl(self, by: u32) -> (r: Self)
        requires
            (by as nat) < Self::width(),
            self.as_nat() * pow2(by as nat) < pow2(Self::width()),
        ensures
            r.as_nat() == self.as_nat() * pow2(by as nat),
    ;

    /// Bitwise AND. Its contract covers the one use the arithmetic makes of
    /// it: AND with a low-bits mask reduces the value modulo a power of two.
    fn bit_and(self, rhs: Self) -> (r: Self)
        ensures
            forall|k: nat|
                k < Self::width() && rhs.as_nat() == #[trigger] low_bits_mask(k)
                    ==> r.as_nat() == self.as_nat() % pow2(k),
    ;
}

/// Addition of two values below `m` wraps by subtracting `m` at most once.
proof fn lemma_wrap_add(x: int, y: int, m: int)
    requires
        0 < m,
        0 <= x < m,
        0 <= y < m,
    ensures
        (x + y) % m == if x + y < m {
            x + y
        } else {
            x + y - m
        },
{
    if x + y < m {
        lemma_small_mod((x + y) as nat, m as nat);
    } else {
        lemma_mod_sub_multiples_vanish(x + y, m);
        lemma_small_mod((x + y - m) as nat, m as nat);
    }
}

/// Subtraction of two values below `m` wraps by adding `m` at most once.
proof fn lemma_wrap_sub(x: int, y: int, m: int)
    requires
        0 < m,
        0 <= x < m,
        0 <= y < m,
    ensures
        (x - y) % m == if x >= y {
            x - y
        } else {
            x - y + m
        },
{
    if x >= y {
        lemma_small_mod((x - y) as nat, m as nat);
    } else {
        lemma_mod_add_multiples_vanish(x - y, m);
        lemma_small_mod((x - y + m) as nat, m as nat);
    }
}

impl Sealed for u8 {
}

impl UInt for u8 {
    open spec fn width() -> nat {
        8
    }

    open spec fn as_nat(self) -> nat {
        self as nat
    }

    proof fn lemma_as_nat_bound(self) {
        lemma2_to64();
    }

    fn storage_bits() -> u32 {
        8
    }

    fn zero() -> u8 {
        0
    }

    fn one() -> u8 {
        1
    }

    fn max_value() -> (r: u8) {
        proof {
            lemma2_to64();
        }
        u8::MAX
    }

    fn eq_value(self, rhs: u8) -> bool {
        self == rhs
    }

    fn lt_value(self, rhs: u8) -> bool {
        self < rhs
    }

    fn wrapping_add(self, rhs: u8) -> (r: u8) {
        proof {
            lemma2_to64();
            lemma_wrap_add(self as int, rhs as int, pow2(8) as int);
        }
        u8::wrapping_add(self, rhs)
    }

    fn wrapping_sub(self, rhs: u8) -> (r: u8) {
        proof {
            lemma2_to64();
            lemma_wrap_sub(self as int, rhs as int, pow2(8) as int);
        }
        u8::wrapping_sub(self, rhs)
    }

    fn shl(self, by: u32) -> (r: u8) {
        proof {
            lemma2_to64();
            lemma_u8_shl_is_mul(self, by as u8);
        }
        self << by
    }

    fn bit_and(self, rhs: u8) -> (r: u8) {
        let r = self & rhs;
        proof {
            assert forall|k: nat|
                k < 8 && (rhs as nat) == #[trigger] low_bits_mask(k) implies (r as nat) == (
            self as nat) % pow2(k) by {
                lemma_u8_pow2_no_overflow(k);
                lemma_u8_low_bits_mask_is_mod(rhs, k);
                lemma_u8_low_bits_mask_is_mod(self, k);
            }
        }
        r
    }
}
impl Sealed for u16 {
}

impl UInt for u16 {
    open spec fn width() -> nat {
        16
    }

    open spec fn as_nat(self) -> nat {
        self as nat
    }

    proof fn lemma_as_nat_bound(self) {
        lemma2_to64();
    }

    fn storage_bits() -> u32 {
        16
    }

    fn zero() -> u16 {
        0
    }

    fn one() -> u16 {
        1
    }

    fn max_value() -> (r: u16) {
        proof {
            lemma2_to64();
        }
        u16::MAX
    }

    fn eq_value(self, rhs: u16) -> bool {
        self == rhs
    }

    fn lt_value(self, rhs: u16) -> bool {
        self < rhs
    }

    fn wrapping_add(self, rhs: u16) -> (r: u16) {
        proof {
            lemma2_to64();
            lemma_wrap_add(self as int, rhs as int, pow2(16) as int);
        }
        u16::wrapping_add(self, rhs)
    }

    fn wrapping_sub(self, rhs: u16) -> (r: u16) {
        proof {
            lemma2_to64();
            lemma_wrap_sub(self as int, rhs as int, pow2(16) as int);
        }
        u16::wrapping_sub(self, rhs)
    }

    fn shl(self, by: u32) -> (r: u16) {
        proof {
            lemma2_to64();
            lemma_u16_shl_is_mul(self, by as u16);
        }
        self << by
    }

    fn bit_and(self, rhs: u16) -> (r: u16) {
        let r = self & rhs;
        proof {
            assert forall|k: nat|
                k < 16 && (rhs as nat) == #[trigger] low_bits_mask(k) implies (r as nat) == (
            self as nat) % pow2(k) by {
                lemma_u16_pow2_no_overflow(k);
                lemma_u16_low_bits_mask_is_mod(rhs, k);
                lemma_u16_low_bits_mask_is_mod(self, k);
            }
        }
        r
    }
}
impl Sealed for u32 {
}

impl UInt for u32 {
    open spec fn width() -> nat {
        32
    }

    open spec fn as_nat(self) -> nat {
        self as nat
    }

    proof fn lemma_as_nat_bound(self) {
        lemma2_to64();
    }

    fn storage_bits() -> u32 {
        32
    }

    fn zero() -> u32 {
        0
    }

    fn one() -> u32 {
        1
    }

    fn max_value() -> (r: u32) {
        proof {
            lemma2_to64();
        }
        u32::MAX
    }

    fn eq_value(self, rhs: u32) -> bool {
        self == rhs
    }

    fn lt_value(self, rhs: u32) -> bool {
        self < rhs
    }

    fn wrapping_add(self, rhs: u32) -> (r: u32) {
        proof {
            lemma2_to64();
            lemma_wrap_add(self as int, rhs as int, pow2(32) as int);
        }
        u32::wrapping_add(self, rhs)
    }

    fn wrapping_sub(self, rhs: u32) -> (r: u32) {
        proof {
            lemma2_to64();
            lemma_wrap_sub(self as int, rhs as int, pow2(32) as int);
        }
        u32::wrapping_sub(self, rhs)
    }

    fn shl(self, by: u32) -> (r: u32) {
        proof {
            lemma2_to64();
            lemma_u32_shl_is_mul(self, by);
        }
        self << by
    }

    fn bit_and(self, rhs: u32) -> (r: u32) {
        let r = self & rhs;
        proof {
            assert forall|k: nat|
                k < 32 && (rhs as nat) == #[trigger] low_bits_mask(k) implies (r as nat) == (
            self as nat) % pow2(k) by {
                lemma_u32_pow2_no_overflow(k);
                lemma_u32_low_bits_mask_is_mod(rhs, k);
                lemma_u32_low_bits_mask_is_mod(self, k);
            }
        }
        r
    }
}
impl Sealed for u64 {
}

impl UInt for u64 {
    open spec fn width() -> nat {
        64
    }

    open spec fn as_nat(self) -> nat {
        self as nat
    }

    proof fn lemma_as_nat_bound(self) {
        lemma2_to64();
    }

    fn storage_bits() -> u32 {
        64
    }

    fn zero() -> u64 {
        0
    }

    fn one() -> u64 {
        1
    }

    fn max_value() -> (r: u64) {
        proof {
            lemma2_to64();
        }
        u64::MAX
    }

    fn eq_value(self, rhs: u64) -> bool {
        self == rhs
    }

    fn lt_value(self, rhs: u64) -> bool {
        self < rhs
    }

    fn wrapping_add(self, rhs: u64) -> (r: u64) {
        proof {
            lemma2_to64();
            lemma_wrap_add(self as int, rhs as int, pow2(64) as int);
        }
        u64::wrapping_add(self, rhs)
    }

    fn wrapping_sub(self, rhs: u64) -> (r: u64) {
        proof {
            lemma2_to64();
            lemma_wrap_sub(self as int, rhs as int, pow2(64) as int);
        }
        u64::wrapping_sub(self, rhs)
    }

    fn shl(self, by: u32) -> (r: u64) {
        proof {
            lemma2_to64();
            lemma_u64_shl_is_mul(self, by as u64);
        }
        self << by
    }

    fn bit_and(self, rhs: u64) -> (r: u64) {
        let r = self & rhs;
        proof {
            assert forall|k: nat|
                k < 64 && (rhs as nat) == #[trigger] low_bits_mask(k) implies (r as nat) == (
            self as nat) % pow2(k) by {
                lemma_u64_pow2_no_overflow(k);
                lemma_u64_low_bits_mask_is_mod(rhs, k);
                lemma_u64_low_bits_mask_is_mod(self, k);
            }
        }
        r
    }
}

} // verus!
