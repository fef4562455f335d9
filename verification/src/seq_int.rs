//! The sequence number itself: an N-bit counter held in a wider storage
//! integer, with masked construction, wrapping increment/decrement and
//! offset arithmetic, and RFC 1982 wraparound comparison.

use crate::storage::UInt;
use core::cmp::Ordering;
use vstd::arithmetic::div_mod::{lemma_mod_division_less_than_divisor, lemma_mod_mod, lemma_small_mod};
use vstd::arithmetic::power2::{
    lemma2_to64, lemma_pow2_adds, lemma_pow2_pos, lemma_pow2_strictly_increases, pow2,
};
use vstd::bits::low_bits_mask;
use vstd::std_specs::cmp::PartialEqSpec;
use vstd::prelude::*;

verus! {

/// The wrapped difference `(b - a) mod 2^bits`: how far `b` lies ahead of
/// `a` on the ring of `bits`-bit values.
pub open spec fn seq_diff(a: nat, b: nat, bits: nat) -> nat {
    ((b - a) % (pow2(bits) as int)) as nat
}

/// RFC 1982 comparison of two `bits`-bit payloads. `b` equals `a` when the
/// wrapped difference is zero, lies ahead of `a` (so `a` is Less) when the
/// difference is below half the ring, and behind it otherwise; a difference
/// of exactly half the ring counts as behind.
pub open spec fn seq_order(a: nat, b: nat, bits: nat) -> Ordering {
    let d = seq_diff(a, b, bits);
    if d == 0 {
        Ordering::Equal
    } else if d < pow2((bits - 1) as nat) {
        Ordering::Less
    } else {
        Ordering::Greater
    }
}

/// A wraparound sequence number: a payload of `BITS` significant bits kept
/// in the storage type `T`. The payload of any constructed value stays below
/// `2^BITS`; all arithmetic wraps at that boundary.
#[derive(Clone, Copy)]
pub struct SequenceInt<T: UInt, const BITS: u8>(pub T);

impl<T: UInt, const BITS: u8> View for SequenceInt<T, BITS> {
    type V = nat;

    open spec fn view(&self) -> nat {
        self.0.as_nat()
    }
}

impl<T: UInt, const BITS: u8> SequenceInt<T, BITS> {
    /// The configuration contract: the logical width must be at least one
    /// bit and fit in the storage type.
    pub open spec fn valid_bits() -> bool {
        1 <= BITS && BITS as nat <= T::width()
    }

    /// The size of the ring: `2^BITS`.
    pub open spec fn modulus() -> nat {
        pow2(BITS as nat)
    }

    /// A well-formed sequence number: validly configured, with no payload
    /// bits at or above position `BITS`.
    pub open spec fn wf(self) -> bool {
        Self::valid_bits() && self@ < Self::modulus()
    }

    /// The payload that construction from `raw` yields.
    pub open spec fn spec_from(raw: T) -> nat {
        raw.as_nat() % Self::modulus()
    }

    /// Whether the logical width uses the whole storage type.
    fn is_full_width() -> (r: bool)
        ensures
            r <==> BITS as nat == T::width(),
    {
        let w = T::storage_bits();
        (BITS as u32) == w
    }

    /// The mask of the low `BITS` bits, `2^BITS - 1`. At full width the
    /// all-ones value is taken directly: a shift by the whole width cannot
    /// be expressed on the storage type.
    fn mod_mask() -> (r: T)
        requires
            Self::valid_bits(),
        ensures
            r.as_nat() == Self::modulus() - 1,
    {
        if Self::is_full_width() {
            T::max_value()
        } else {
            proof {
                lemma_pow2_strictly_increases(BITS as nat, T::width());
                lemma_pow2_strictly_increases(0, BITS as nat);
                lemma2_to64();
            }
            let shifted = T::one().shl(BITS as u32);
            proof {
                lemma_small_mod((shifted.as_nat() - 1) as nat, pow2(T::width()));
            }
            shifted.wrapping_sub(T::one())
        }
    }

    /// The wraparound threshold, `2^(BITS - 1)`: half the ring.
    fn half_range() -> (r: T)
        requires
            Self::valid_bits(),
        ensures
            r.as_nat() == pow2((BITS - 1) as nat),
    {
        proof {
            lemma_pow2_strictly_increases((BITS - 1) as nat, T::width());
        }
        T::one().shl((BITS - 1) as u32)
    }

    /// Reduces a raw storage value to the low `BITS` bits. Every operation
    /// that produces a payload goes through this, so every observed payload
    /// stays below `2^BITS`.
    fn mask(v: T) -> (r: T)
        requires
            Self::valid_bits(),
        ensures
            r.as_nat() == v.as_nat() % Self::modulus(),
    {
        if Self::is_full_width() {
            proof {
                v.lemma_as_nat_bound();
                lemma_pow2_pos(BITS as nat);
                lemma_small_mod(v.as_nat(), Self::modulus());
            }
            v
        } else {
            let m = Self::mod_mask();
            proof {
                assert(m.as_nat() == low_bits_mask(BITS as nat));
            }
            v.bit_and(m)
        }
    }

    /// Builds a sequence number from a raw storage value by masking it to
    /// `BITS` bits. Construction never fails: excess high bits are dropped.
    pub fn from(raw: T) -> (r: Self)
        requires
            Self::valid_bits(),
        ensures
            r.wf(),
            r@ == Self::spec_from(raw),
    {
        proof {
            lemma_pow2_pos(BITS as nat);
            lemma_mod_division_less_than_divisor(raw.as_nat() as int, Self::modulus() as int);
        }
        SequenceInt(Self::mask(raw))
    }

    /// Reducing modulo the whole storage width first and the ring size
    /// second is the same as reducing by the ring size alone: the ring size
    /// divides `2^width`.
    proof fn lemma_double_mod(x: int)
        requires
            Self::valid_bits(),
        ensures
            (x % (pow2(T::width()) as int)) % (Self::modulus() as int) == x % (
            Self::modulus() as int),
    {
        let b = BITS as nat;
        let rest = (T::width() - b) as nat;
        lemma_pow2_adds(b, rest);
        lemma_pow2_pos(b);
        lemma_pow2_pos(rest);
        lemma_mod_mod(x, pow2(b) as int, pow2(rest) as int);
    }

    /// Advances the payload by one, wrapping at the `BITS` boundary: the
    /// largest `BITS`-bit value steps to zero.
    pub fn inc(&mut self)
        requires
            old(self).wf(),
        ensures
            final (self).wf(),
            final (self)@ == (old(self)@ + 1) % Self::modulus(),
    {
        proof {
            lemma_pow2_pos(BITS as nat);
            Self::lemma_double_mod(old(self)@ + 1 as int);
            lemma_mod_division_less_than_divisor(old(self)@ + 1 as int, Self::modulus() as int);
        }
        self.0 = Self::mask(self.0.wrapping_add(T::one()));
    }

    /// Steps the payload back by one, wrapping at the `BITS` boundary: zero
    /// steps to the largest `BITS`-bit value.
    pub fn dec(&mut self)
        requires
            old(self).wf(),
        ensures
            final (self).wf(),
            final (self)@ == (old(self)@ - 1) % (Self::modulus() as int),
    {
        proof {
            lemma_pow2_pos(BITS as nat);
            Self::lemma_double_mod(old(self)@ - 1);
            lemma_mod_division_less_than_divisor(old(self)@ - 1, Self::modulus() as int);
        }
        self.0 = Self::mask(self.0.wrapping_sub(T::one()));
    }

    /// Offset addition: moves `rhs` raw steps forward on the ring. Plain
    /// modular arithmetic, with no half-range logic involved.
    pub fn add(self, rhs: T) -> (r: Self)
        requires
            Self::valid_bits(),
        ensures
            r.wf(),
            r@ == (self@ + rhs.as_nat()) % Self::modulus(),
    {
        proof {
            lemma_pow2_pos(BITS as nat);
            Self::lemma_double_mod(self@ + rhs.as_nat() as int);
            lemma_mod_division_less_than_divisor(
                self@ + rhs.as_nat() as int,
                Self::modulus() as int,
            );
        }
        SequenceInt(Self::mask(self.0.wrapping_add(rhs)))
    }

    /// Offset subtraction: moves `rhs` raw steps backward on the ring.
    pub fn sub(self, rhs: T) -> (r: Self)
        requires
            Self::valid_bits(),
        ensures
            r.wf(),
            r@ == (self@ - rhs.as_nat()) % (Self::modulus() as int),
    {
        proof {
            lemma_pow2_pos(BITS as nat);
            Self::lemma_double_mod(self@ - rhs.as_nat());
            lemma_mod_division_less_than_divisor(
                self@ - rhs.as_nat() as int,
                Self::modulus() as int,
            );
        }
        SequenceInt(Self::mask(self.0.wrapping_sub(rhs)))
    }

    /// RFC 1982 three-way comparison: the wrapped difference of the
    /// payloads, taken modulo the ring size, decides whether `other` is
    /// equal to, ahead of, or behind `self`.
    pub fn cmp(&self, other: &Self) -> (r: Ordering)
        requires
            Self::valid_bits(),
        ensures
            r == seq_order(self@, other@, BITS as nat),
    {
        let mut diff = other.0.wrapping_sub(self.0);
        if !Self::is_full_width() {
            let m = Self::mod_mask();
            proof {
                assert(m.as_nat() == low_bits_mask(BITS as nat));
            }
            diff = diff.bit_and(m);
        }
        proof {
            Self::lemma_double_mod(other@ - self@);
        }
        if diff.eq_value(T::zero()) {
            Ordering::Equal
        } else if diff.lt_value(Self::half_range()) {
            Ordering::Less
        } else {
            Ordering::Greater
        }
    }
}

impl<T: UInt, const BITS: u8> PartialEq for SequenceInt<T, BITS> {
    /// Structural equality of the payloads. Not wraparound-aware: nothing
    /// is ever "close enough".
    fn eq(&self, other: &Self) -> (r: bool) {
        self.0.eq_value(other.0)
    }
}

impl<T: UInt, const BITS: u8> Eq for SequenceInt<T, BITS> {

}

impl<T: UInt, const BITS: u8> vstd::std_specs::cmp::PartialEqSpecImpl for SequenceInt<T, BITS> {
    open spec fn obeys_eq_spec() -> bool {
        true
    }

    open spec fn eq_spec(&self, other: &Self) -> bool {
        self@ == other@
    }
}

impl<T: UInt, const BITS: u8> PartialOrd for SequenceInt<T, BITS> {
    /// RFC 1982 comparison through the standard operators. A misconfigured
    /// width (zero, or wider than the storage) yields no ordering.
    fn partial_cmp(&self, other: &Self) -> (r: Option<Ordering>) {
        if 1 <= BITS && (BITS as u32) <= T::storage_bits() {
            Some(self.cmp(other))
        } else {
            None
        }
    }
}

impl<T: UInt, const BITS: u8> vstd::std_specs::cmp::PartialOrdSpecImpl for SequenceInt<T, BITS> {
    open spec fn obeys_partial_cmp_spec() -> bool {
        true
    }

    open spec fn partial_cmp_spec(&self, other: &Self) -> Option<Ordering> {
        if Self::valid_bits() {
            Some(seq_order(self@, other@, BITS as nat))
        } else {
            None
        }
    }
}

/// Masking invariant: a value built from any raw input keeps no payload
/// bits at or above position `BITS` — the payload stays below `2^BITS`.
pub proof fn lemma_masking_invariant<T: UInt, const BITS: u8>(raw: T)
    requires
        SequenceInt::<T, BITS>::valid_bits(),
    ensures
        SequenceInt::<T, BITS>::spec_from(raw) < pow2(BITS as nat),
{
    lemma_pow2_pos(BITS as nat);
    lemma_mod_division_less_than_divisor(
        raw.as_nat() as int,
        SequenceInt::<T, BITS>::modulus() as int,
    );
}

/// Equality law: `==` on sequence numbers is reflexive and symmetric, and
/// two values built from the raw inputs `v` and `w` are equal exactly when
/// the masked payloads match.
pub proof fn lemma_eq_law<T: UInt, const BITS: u8>(
    a: SequenceInt<T, BITS>,
    b: SequenceInt<T, BITS>,
    v: T,
    w: T,
)
    requires
        a@ == SequenceInt::<T, BITS>::spec_from(v),
        b@ == SequenceInt::<T, BITS>::spec_from(w),
    ensures
        a.eq_spec(&a),
        a.eq_spec(&b) <==> b.eq_spec(&a),
        a.eq_spec(&b) <==> v.as_nat() % SequenceInt::<T, BITS>::modulus() == w.as_nat()
            % SequenceInt::<T, BITS>::modulus(),
{
}

/// Full-width behavior: when `BITS` is the whole storage width, masking is
/// the identity — construction keeps the raw payload unchanged.
pub proof fn lemma_full_width_identity<T: UInt, const BITS: u8>(raw: T)
    requires
        BITS as nat == T::width(),
        SequenceInt::<T, BITS>::valid_bits(),
    ensures
        SequenceInt::<T, BITS>::spec_from(raw) == raw.as_nat(),
{
    raw.lemma_as_nat_bound();
    lemma_pow2_pos(BITS as nat);
    lemma_small_mod(raw.as_nat(), SequenceInt::<T, BITS>::modulus());
}

/// An 8-bit counter filling a `u8`.
pub type SeqU8 = SequenceInt<u8, 8>;

/// A 16-bit counter filling a `u16`.
pub type SeqU16 = SequenceInt<u16, 16>;

/// A 24-bit counter held in a `u32`.
pub type SeqU24 = SequenceInt<u32, 24>;

/// A 32-bit counter filling a `u32`.
pub type SeqU32 = SequenceInt<u32, 32>;

/// A 64-bit counter filling a `u64`.
pub type SeqU64 = SequenceInt<u64, 64>;

} // verus!
