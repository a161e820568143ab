//! XOR-based differential updates: a byte-wise delta for same-length
//! regions, with new bytes carried verbatim beyond the base's end, and
//! hex-named content hashes for version negotiation.

use vstd::prelude::*;

use crate::crypto::blake3_hash;
use crate::crypto::blake3_of;
use crate::crypto::hex_encode;
use crate::crypto::hex_of;

verus! {

/// The XOR combination: as long as the shorter input, each byte is the two
/// inputs' XOR; beyond it, the longer input's bytes verbatim.
pub open spec fn xor_bytes(base: Seq<u8>, other: Seq<u8>) -> Seq<u8> {
    Seq::new(
        other.len(),
        |i: int|
            if i < base.len() {
                base[i] ^ other[i]
            } else {
                other[i]
            },
    )
}

/// The hex spelling of the BLAKE3 hash of binary data.
pub fn hash_binary(data: &[u8]) -> (r: String)
    ensures
        r@ == hex_of(blake3_of(data@)),
{
    let h = blake3_hash(data);
    hex_encode(h.as_slice())
}

/// Calculate the XOR delta between an old and a new binary.
pub fn calculate_delta(old_bytes: &[u8], new_bytes: &[u8]) -> (r: Vec<u8>)
    ensures
        r@ == xor_bytes(old_bytes@, new_bytes@),
{
    let mut delta: Vec<u8> = Vec::new();
    let mut i: usize = 0;
    while i < new_bytes.len()
        invariant
            i <= new_bytes@.len(),
            delta@ == xor_bytes(old_bytes@, new_bytes@).take(i as int),
        decreases new_bytes@.len() - i,
    {
        let b = if i < old_bytes.len() {
            old_bytes[i] ^ new_bytes[i]
        } else {
            new_bytes[i]
        };
        delta.push(b);
        proof {
            assert(xor_bytes(old_bytes@, new_bytes@).take(i + 1) =~= xor_bytes(
                old_bytes@,
                new_bytes@,
            ).take(i as int).push(xor_bytes(old_bytes@, new_bytes@)[i as int]));
        }
        i = i + 1;
    }
    proof {
        assert(xor_bytes(old_bytes@, new_bytes@).take(new_bytes@.len() as int) =~= xor_bytes(
            old_bytes@,
            new_bytes@,
        ));
    }
    delta
}

/// Apply an XOR delta to a base binary.
pub fn apply_delta(base: &[u8], delta: &[u8]) -> (r: Vec<u8>)
    ensures
        r@ == xor_bytes(base@, delta@),
{
    calculate_delta(base, delta)
}

/// XOR delta round trip: applying the delta calculated from `old_bytes` to
/// `new_bytes` back onto `old_bytes` reproduces `new_bytes` exactly.
pub proof fn lemma_xor_roundtrip(old_bytes: Seq<u8>, new_bytes: Seq<u8>)
    ensures
        xor_bytes(old_bytes, xor_bytes(old_bytes, new_bytes)) == new_bytes,
{
    let d = xor_bytes(old_bytes, new_bytes);
    assert forall|i: int| 0 <= i < new_bytes.len() implies xor_bytes(old_bytes, d)[i]
        == new_bytes[i] by {
        if i < old_bytes.len() {
            let o = old_bytes[i];
            let n = new_bytes[i];
            assert(o ^ (o ^ n) == n) by (bit_vector);
        }
    }
    assert(xor_bytes(old_bytes, d) =~= new_bytes);
}

} // verus!
