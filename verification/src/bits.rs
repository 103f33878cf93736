//! Facts about bit operations on machine integers, proved once for all values.
use vstd::prelude::*;

verus! {

/// Joining two 32-bit halves with a shift and an or is adding the high half
/// times 2^32 to the low one.
pub proof fn lemma_join_halves()
    by (bit_vector)
    ensures
        forall|lo: u64, hi: u64|
            #![trigger (hi << 32u64) | lo]
            lo <= 0xffff_ffff && hi <= 0xffff_ffff ==> (hi << 32u64) | lo == lo + hi * 0x1_0000_0000,
        forall|lo: u64, hi: u64|
            #![trigger lo | (hi << 32u64)]
            lo <= 0xffff_ffff && hi <= 0xffff_ffff ==> lo | (hi << 32u64) == lo + hi * 0x1_0000_0000,
{
}

/// Single bits and small fields of a byte, as arithmetic.
pub proof fn lemma_byte_bits()
    by (bit_vector)
    ensures
        forall|a: u8| #![trigger a & 0x80u8] ((a & 0x80u8) != 0) == (a >= 0x80),
        forall|a: u8| #![trigger a & 0x40u8] ((a & 0x40u8) != 0) == ((a / 0x40) % 2 == 1),
        forall|a: u8| #![trigger a & 0x20u8] ((a & 0x20u8) != 0) == ((a / 0x20) % 2 == 1),
        forall|a: u8| #![trigger a & 0x0Fu8] a & 0x0Fu8 == a % 16,
        forall|a: u8| #![trigger a & 0x03u8] a & 0x03u8 == a % 4,
        forall|a: u8| #![trigger (a >> 4u8) & 0x0Fu8] (a >> 4u8) & 0x0Fu8 == a / 16,
{
}

} // verus!
