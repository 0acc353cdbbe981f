//! The attachment manager: ingestion of a source image.
//!
//! Ingestion reads the source file fully (done by the caller), encodes the
//! bytes to a text-safe form for the outgoing request, and generates a
//! fresh content address by hashing thirty random alphanumeric characters.
//! The address is a collision-resistant unique id, not a function of the
//! file's content: ingesting the same file twice yields two ids and two
//! stored copies.

use vstd::prelude::*;

verus! {

use crate::json::is_hex_lower;

/// What base64's standard engine produces for a byte sequence.
pub uninterp spec fn base64_of(bytes: Seq<u8>) -> Seq<u8>;

/// An ASCII letter or digit.
pub open spec fn is_alphanumeric_byte(b: u8) -> bool {
    (48 <= b <= 57) || (65 <= b <= 90) || (97 <= b <= 122)
}

/// Relies on base64's `general_purpose::STANDARD` engine `encode`: the
/// padded standard alphabet, four output characters for every (started)
/// three input bytes.
#[verifier::external_body]
fn base64_encode(bytes: &Vec<u8>) -> (r: Vec<u8>)
    ensures
        r@ == base64_of(bytes@),
        r@.len() == 4 * ((bytes@.len() + 2) / 3),
{
    base64::Engine::encode(&base64::engine::general_purpose::STANDARD, bytes.as_slice())
        .into_bytes()
}

/// Relies on `sha256::digest`: the SHA-256 digest of the input, rendered
/// as 64 lowercase hex characters (`hex::encode` of the 32 digest bytes).
#[verifier::external_body]
fn sha256_hex(input: &Vec<u8>) -> (r: Vec<u8>)
    ensures
        r@ == sha256_hex_of(input@),
        r@.len() == 64,
        forall|i: int| 0 <= i < r@.len() ==> is_hex_lower(r@[i]),
{
    sha256::digest(input.as_slice()).into_bytes()
}

/// What the sha256 crate returns for an input: its digest as lowercase hex.
pub uninterp spec fn sha256_hex_of(input: Seq<u8>) -> Seq<u8>;

/// Relies on rand's `Alphanumeric` distribution, sampled from the thread's
/// generator: every sample is an ASCII letter or digit.  Nothing else can
/// be promised of a random draw.
#[verifier::external_body]
fn sample_alphanumeric() -> (r: u8)
    ensures
        is_alphanumeric_byte(r),
{
    rand::Rng::sample(&mut rand::thread_rng(), rand::distributions::Alphanumeric)
}

/// A value that is the hex digest of some thirty-character alphanumeric
/// seed.
pub open spec fn is_seeded_digest(r: Seq<u8>) -> bool {
    exists|seed: Seq<u8>|
        #![trigger sha256_hex_of(seed)]
        seed.len() == 30 && (forall|i: int| 0 <= i < 30 ==> is_alphanumeric_byte(#[trigger] seed[i]))
            && r == sha256_hex_of(seed)
}

/// A fresh content address: the hex digest of thirty random alphanumeric
/// characters.  The id is practically unique but NOT derived from any
/// file's content; every call draws anew, and that two calls differ is
/// chance, not a contract.
pub fn generate_random_hash() -> (r: Vec<u8>)
    ensures
        r@.len() == 64,
        forall|i: int| 0 <= i < r@.len() ==> is_hex_lower(r@[i]),
        is_seeded_digest(r@),
{
    let mut seed: Vec<u8> = Vec::new();
    let mut i: usize = 0;
    while i < 30
        invariant
            i <= 30,
            seed@.len() == i,
            forall|j: int| 0 <= j < i ==> is_alphanumeric_byte(#[trigger] seed@[j]),
        decreases 30 - i,
    {
        seed.push(sample_alphanumeric());
        i = i + 1;
    }
    let r = sha256_hex(&seed);
    proof {
        assert(seed@.len() == 30 && (forall|j: int|
            0 <= j < 30 ==> is_alphanumeric_byte(#[trigger] seed@[j])) && r@ == sha256_hex_of(
            seed@,
        ));
    }
    r
}

/// Ingests an attachment whose bytes the caller has read: yields a fresh
/// content address and the encoded payload for the outgoing request.
pub fn read_image(filebinary: &Vec<u8>) -> (r: (Vec<u8>, Vec<u8>))
    ensures
        r.0@.len() == 64,
        forall|i: int| 0 <= i < r.0@.len() ==> is_hex_lower(r.0@[i]),
        is_seeded_digest(r.0@),
        r.1@ == base64_of(filebinary@),
{
    let hash = generate_random_hash();
    let encoded = base64_encode(filebinary);
    (hash, encoded)
}

} // verus!
