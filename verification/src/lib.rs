//! Wraparound sequence numbers: fixed-width unsigned counters whose ordering
//! follows RFC 1982 serial-number arithmetic instead of plain integer
//! comparison. An N-bit counter is stored in a wider native unsigned integer;
//! construction masks the payload to N bits, arithmetic wraps at the N-bit
//! boundary, and comparison treats differences below half the ring as
//! "ahead" and the rest as "behind".

mod seq_int;
mod storage;

pub use seq_int::{
    lemma_eq_law, lemma_full_width_identity, lemma_masking_invariant, seq_diff, seq_order,
    SeqU16, SeqU24, SeqU32, SeqU64, SeqU8, SequenceInt,
};
pub use storage::{Sealed, UInt};
