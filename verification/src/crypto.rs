//! Trusted boundary to the cryptographic primitives: BLAKE3 content hashing
//! for version identity and detached Ed25519 signatures over the payload.
//!
//! Only the wrappers in this module call the outside crates; everything that
//! consumes a digest or a verification result is verified against the named
//! results below.

use vstd::prelude::*;

use ed25519_dalek::Signer;
use ed25519_dalek::Verifier;

verus! {

/// The 32-byte BLAKE3 digest of a byte sequence. The digest is a function of
/// the input bytes alone; no contract of this crate says what it is on any
/// given input.
pub uninterp spec fn blake3_of(data: Seq<u8>) -> Seq<u8>;

/// Relies on `blake3::hash`: a 32-byte digest computed from the input bytes
/// alone.
#[verifier::external_body]
pub(crate) fn blake3_hash(data: &[u8]) -> (r: Vec<u8>)
    ensures
        r@ == blake3_of(data@),
        r@.len() == 32,
{
    blake3::hash(data).as_bytes().to_vec()
}

/// The Ed25519 public key derived from a 32-byte secret key.
pub uninterp spec fn ed25519_pubkey_of(seed: Seq<u8>) -> Seq<u8>;

/// The detached Ed25519 signature of a message under a 32-byte secret key.
/// RFC 8032 signing is deterministic, so the signature is a function of the
/// key and message alone.
pub uninterp spec fn ed25519_sign_of(seed: Seq<u8>, msg: Seq<u8>) -> Seq<u8>;

/// Whether a detached Ed25519 signature verifies under a public key.
pub uninterp spec fn ed25519_verifies(pk: Seq<u8>, msg: Seq<u8>, sig: Seq<u8>) -> bool;

/// Relies on `ed25519_dalek::SigningKey::{from_bytes, verifying_key}`: the
/// public key is derived from the secret key bytes alone.
#[verifier::external_body]
fn ed25519_derive(seed: &[u8]) -> (r: Vec<u8>)
    requires
        seed@.len() == 32,
    ensures
        r@ == ed25519_pubkey_of(seed@),
        r@.len() == 32,
{
    let mut sk = [0u8; 32];
    sk.copy_from_slice(seed);
    ed25519_dalek::SigningKey::from_bytes(&sk).verifying_key().to_bytes().to_vec()
}

/// The verifying key that belongs to a 32-byte signing key: what a decoder
/// must be handed, out of band, to accept this signer's streams.
pub fn derive_verifying_key(seed: &[u8]) -> (r: Vec<u8>)
    requires
        seed@.len() == 32,
    ensures
        r@ == ed25519_pubkey_of(seed@),
        r@.len() == 32,
{
    ed25519_derive(seed)
}

/// Relies on `ed25519_dalek::SigningKey::sign` (deterministic RFC 8032
/// Ed25519): the 64-byte signature is a function of key and message alone,
/// and it verifies under the public key derived from the same secret key.
#[verifier::external_body]
pub(crate) fn sign_detached(seed: &[u8], msg: &[u8]) -> (r: Vec<u8>)
    requires
        seed@.len() == 32,
    ensures
        r@ == ed25519_sign_of(seed@, msg@),
        r@.len() == 64,
        ed25519_verifies(ed25519_pubkey_of(seed@), msg@, r@),
{
    let mut sk = [0u8; 32];
    sk.copy_from_slice(seed);
    ed25519_dalek::SigningKey::from_bytes(&sk).sign(msg).to_bytes().to_vec()
}

/// Relies on `ed25519_dalek::VerifyingKey::{from_bytes, verify}`: a
/// deterministic check of a detached signature, false when the key bytes do
/// not decode to a valid public key.
#[verifier::external_body]
pub(crate) fn verify_detached(pk: &[u8], msg: &[u8], sig: &[u8]) -> (r: bool)
    requires
        pk@.len() == 32,
        sig@.len() == 64,
    ensures
        r == ed25519_verifies(pk@, msg@, sig@),
{
    let mut pkb = [0u8; 32];
    pkb.copy_from_slice(pk);
    let mut sigb = [0u8; 64];
    sigb.copy_from_slice(sig);
    match ed25519_dalek::VerifyingKey::from_bytes(&pkb) {
        Ok(vk) => vk.verify(msg, &ed25519_dalek::Signature::from_bytes(&sigb)).is_ok(),
        Err(_) => false,
    }
}

/// The lower-case hexadecimal digit of a value below sixteen.
pub open spec fn hex_digit(n: int) -> char {
    if n < 10 {
        (48 + n) as char
    } else {
        (87 + n) as char
    }
}

/// The lower-case hexadecimal spelling of a byte sequence, two digits per
/// byte, most significant digit first.
pub open spec fn hex_of(data: Seq<u8>) -> Seq<char>
    decreases data.len(),
{
    if data.len() == 0 {
        Seq::empty()
    } else {
        seq![hex_digit(data[0] as int / 16), hex_digit(data[0] as int % 16)] + hex_of(data.skip(1))
    }
}

proof fn lemma_hex_of_snoc(data: Seq<u8>, b: u8)
    ensures
        hex_of(data.push(b)) == hex_of(data) + seq![hex_digit(b as int / 16), hex_digit(b as int % 16)],
    decreases data.len(),
{
    if data.len() == 0 {
        assert(data.push(b).skip(1) =~= Seq::<u8>::empty());
        assert(hex_of(Seq::<u8>::empty()) == Seq::<char>::empty());
        assert(data.push(b)[0] == b);
        assert(hex_of(data.push(b)) =~= hex_of(data) + seq![
            hex_digit(b as int / 16),
            hex_digit(b as int % 16),
        ]);
    } else {
        assert(data.push(b).skip(1) =~= data.skip(1).push(b));
        assert(data.push(b)[0] == data[0]);
        lemma_hex_of_snoc(data.skip(1), b);
        assert(hex_of(data.push(b)) == seq![
            hex_digit(data[0] as int / 16),
            hex_digit(data[0] as int % 16),
        ] + hex_of(data.skip(1).push(b)));
        assert(hex_of(data.push(b)) =~= hex_of(data) + seq![
            hex_digit(b as int / 16),
            hex_digit(b as int % 16),
        ]);
    }
}

/// The lower-case hexadecimal spelling of a byte slice.
pub fn hex_encode(data: &[u8]) -> (r: String)
    ensures
        r@ == hex_of(data@),
{
    let digits = "0123456789abcdef";
    proof {
        reveal_strlit("0123456789abcdef");
    }
    let mut out = String::new();
    let mut i: usize = 0;
    while i < data.len()
        invariant
            i <= data@.len(),
            out@ == hex_of(data@.take(i as int)),
            digits@ == "0123456789abcdef"@,
            digits.is_ascii(),
        decreases data@.len() - i,
    {
        proof {
            reveal_strlit("0123456789abcdef");
        }
        let b = data[i];
        let hi: usize = (b / 16) as usize;
        let lo: usize = (b % 16) as usize;
        let hs = digits.substring_ascii(hi, hi + 1);
        out.append(hs);
        let ls = digits.substring_ascii(lo, lo + 1);
        out.append(ls);
        proof {
            assert(hs@ =~= seq![hex_digit(b as int / 16)]);
            assert(ls@ =~= seq![hex_digit(b as int % 16)]);
            lemma_hex_of_snoc(data@.take(i as int), b);
            assert(data@.take(i + 1) =~= data@.take(i as int).push(data@[i as int]));
            assert(out@ =~= hex_of(data@.take(i + 1)));
        }
        i = i + 1;
    }
    proof {
        assert(data@.take(data@.len() as int) =~= data@);
    }
    out
}

} // verus!
