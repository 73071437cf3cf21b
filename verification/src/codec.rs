use vstd::prelude::*;

use vstd::bytes::{
    lemma_auto_spec_u64_to_from_le_bytes, spec_u64_to_le_bytes, u64_from_le_bytes, u64_to_le_bytes,
};
use vstd::slice::slice_subrange;

verus! {

/// The wire form of a pair of 64-bit words: each little-endian, first word
/// first.  Request-vote messages travel in this form.
pub open spec fn spec_encode_pair(a: u64, b: u64) -> Seq<u8> {
    spec_u64_to_le_bytes(a) + spec_u64_to_le_bytes(b)
}

/// Serializes a pair of words.
pub fn encode_pair(a: u64, b: u64) -> (r: Vec<u8>)
    ensures
        r@ == spec_encode_pair(a, b),
        r@.len() == 16,
{
    let mut buf = u64_to_le_bytes(a);
    let mut second = u64_to_le_bytes(b);
    buf.append(&mut second);
    proof {
        assert(buf@ =~= spec_encode_pair(a, b));
    }
    buf
}

/// Deserializes a pair of words: succeeds exactly on the byte strings that
/// `encode_pair` produces, and returns the pair it encoded.
pub fn decode_pair(bytes: &Vec<u8>) -> (r: Option<(u64, u64)>)
    ensures
        match r {
            Some(p) => bytes@ == spec_encode_pair(p.0, p.1),
            None => bytes@.len() != 16,
        },
{
    if bytes.len() != 16 {
        return None;
    }
    let first = u64_from_le_bytes(slice_subrange(bytes.as_slice(), 0, 8));
    let second = u64_from_le_bytes(slice_subrange(bytes.as_slice(), 8, 16));
    proof {
        lemma_auto_spec_u64_to_from_le_bytes();
        assert(bytes@ =~= spec_encode_pair(first, second));
    }
    Some((first, second))
}

/// Round trip: decoding an encoded pair gives the pair back.  With
/// `decode_pair`'s contract this also says the wire form is unambiguous.
pub proof fn lemma_pair_round_trip(a: u64, b: u64, a2: u64, b2: u64)
    requires
        spec_encode_pair(a, b) == spec_encode_pair(a2, b2),
    ensures
        a == a2 && b == b2,
{
    lemma_auto_spec_u64_to_from_le_bytes();
    assert(spec_encode_pair(a, b).subrange(0, 8) =~= spec_u64_to_le_bytes(a));
    assert(spec_encode_pair(a, b).subrange(8, 16) =~= spec_u64_to_le_bytes(b));
    assert(spec_encode_pair(a2, b2).subrange(0, 8) =~= spec_u64_to_le_bytes(a2));
    assert(spec_encode_pair(a2, b2).subrange(8, 16) =~= spec_u64_to_le_bytes(b2));
}

} // verus!
