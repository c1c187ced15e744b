//! Store keys: a timestamp encoded as eight little-endian bytes of its
//! two's-complement value, and the decoding back.

use vstd::bytes::{
    lemma_auto_spec_u64_to_from_le_bytes, spec_u64_from_le_bytes, spec_u64_to_le_bytes,
};
use vstd::prelude::*;

verus! {

/// The bytes a timestamp is keyed under: little-endian two's complement.
pub open spec fn key_bytes_of(ts: i64) -> Seq<u8> {
    spec_u64_to_le_bytes(ts as u64)
}

/// The timestamp eight key bytes stand for.
pub open spec fn timestamp_of_key(k: Seq<u8>) -> i64
    recommends
        k.len() == 8,
{
    spec_u64_from_le_bytes(k) as i64
}

/// Every key is eight bytes long.
pub proof fn lemma_key_len(ts: i64)
    ensures
        key_bytes_of(ts).len() == 8,
{
    lemma_auto_spec_u64_to_from_le_bytes();
}

/// Encoding a timestamp and decoding the key yields the same timestamp:
/// the key loses no precision.
pub proof fn lemma_key_round_trip(ts: i64)
    ensures
        key_bytes_of(ts).len() == 8,
        timestamp_of_key(key_bytes_of(ts)) == ts,
{
    lemma_auto_spec_u64_to_from_le_bytes();
    assert((ts as u64) as i64 == ts) by (bit_vector);
}

/// Two timestamps collide on a key exactly when they are equal.
pub proof fn lemma_key_injective(t1: i64, t2: i64)
    ensures
        key_bytes_of(t1) == key_bytes_of(t2) <==> t1 == t2,
{
    lemma_key_round_trip(t1);
    lemma_key_round_trip(t2);
}

/// Round trip on well-formed dates: for date text in the expected form, the
/// instant it denotes, encoded into a store key and decoded back, is the
/// identical instant — the key loses no precision, to the second.
pub proof fn lemma_date_key_round_trip(s: Seq<u8>)
    requires
        crate::datetime::wf_datetime(s),
    ensures
        timestamp_of_key(key_bytes_of(crate::datetime::datetime_seconds(s) as i64))
            == crate::datetime::datetime_seconds(s),
{
    crate::datetime::lemma_datetime_seconds_bounded(s);
    lemma_key_round_trip(crate::datetime::datetime_seconds(s) as i64);
}

/// Encode a timestamp as its eight little-endian key bytes.
pub fn encode_key(ts: i64) -> (r: Vec<u8>)
    ensures
        r@ == key_bytes_of(ts),
        r@.len() == 8,
{
    proof {
        lemma_key_len(ts);
    }
    let u: u64 = #[verifier::truncate] (ts as u64);
    vstd::bytes::u64_to_le_bytes(u)
}

/// Decode eight little-endian key bytes back into the timestamp.
pub fn decode_key(k: &[u8]) -> (r: i64)
    requires
        k@.len() == 8,
    ensures
        r == timestamp_of_key(k@),
{
    let u: u64 = vstd::bytes::u64_from_le_bytes(k);
    #[verifier::truncate] (u as i64)
}

} // verus!
