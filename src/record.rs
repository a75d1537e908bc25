//! The on-disk layout of one record: a signed 32-bit integer in four
//! little-endian bytes, with no header.

use vstd::bytes::{
    lemma_auto_spec_u32_to_from_le_bytes, spec_u32_from_le_bytes, spec_u32_to_le_bytes,
    u32_from_le_bytes, u32_to_le_bytes,
};
use vstd::prelude::*;

verus! {

/// Size of one record in bytes.
pub const RECORD_SIZE: u64 = 4;

/// The four bytes that store `v`.
pub open spec fn record_bytes(v: i32) -> Seq<u8> {
    spec_u32_to_le_bytes(#[verifier::truncate] (v as u32))
}

/// The value that four stored bytes hold.
pub open spec fn record_value(b: Seq<u8>) -> i32 {
    #[verifier::truncate] (spec_u32_from_le_bytes(b) as i32)
}

/// Decoding the bytes of a record gives back its value, and every record
/// takes exactly four bytes.
pub proof fn lemma_record_round_trip(v: i32)
    ensures
        record_bytes(v).len() == 4,
        record_value(record_bytes(v)) == v,
{
    lemma_auto_spec_u32_to_from_le_bytes();
    let u = #[verifier::truncate] (v as u32);
    assert(spec_u32_to_le_bytes(u).len() == 4);
    assert(spec_u32_from_le_bytes(spec_u32_to_le_bytes(u)) == u);
    assert(#[verifier::truncate] (u as i32) == v) by (bit_vector)
        requires
            u == #[verifier::truncate] (v as u32),
    ;
}

/// Encodes one record.
pub fn encode_record(v: i32) -> (r: Vec<u8>)
    ensures
        r@ == record_bytes(v),
        r@.len() == 4,
{
    u32_to_le_bytes(v as u32)
}

/// Decodes one record from exactly four bytes.
pub fn decode_record(b: &[u8]) -> (r: i32)
    requires
        b@.len() == 4,
    ensures
        r == record_value(b@),
{
    u32_from_le_bytes(b) as i32
}

} // verus!
