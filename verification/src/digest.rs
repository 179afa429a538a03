use crate::header::{frame, framed_bytes};
use crate::object_type::ObjectType;
use vstd::prelude::*;

verus! {

/// The SHA-1 digest of a byte sequence. The digest engine is the `sha1`
/// crate; this name stands for its result and is pinned down only by the
/// facts the trusted wrapper below states of it.
pub uninterp spec fn sha1_of(bytes: Seq<u8>) -> Seq<u8>;

/// The lowercase hexadecimal digit for a value below 16.
pub open spec fn hex_digit(n: int) -> char
    recommends
        0 <= n < 16,
{
    if n < 10 {
        (((n + 48) as u32) as char)
    } else {
        (((n + 87) as u32) as char)
    }
}

/// Lowercase hexadecimal rendering: two digits per byte, high nibble first.
pub open spec fn hex_of(bytes: Seq<u8>) -> Seq<char> {
    Seq::new(
        2 * bytes.len(),
        |i: int|
            if i % 2 == 0 {
                hex_digit((bytes[i / 2] / 16) as int)
            } else {
                hex_digit((bytes[i / 2] % 16) as int)
            },
    )
}

/// The digest of a payload hashed under a tag: the SHA-1 of the framed
/// bytes, in lowercase hexadecimal.
pub open spec fn object_digest(t: ObjectType, payload: Seq<u8>) -> Seq<char> {
    hex_of(sha1_of(framed_bytes(t, payload)))
}

/// Relies on `sha1::Sha1` through the one-shot `Digest::digest` API: the
/// SHA-1 digest is a function of the input bytes alone, and is 20 bytes
/// long (the core's output size is `U20`).
#[verifier::external_body]
fn sha1_digest(bytes: &[u8]) -> (r: Vec<u8>)
    ensures
        r@ == sha1_of(bytes@),
        r@.len() == 20,
{
    <sha1::Sha1 as sha1::Digest>::digest(bytes).to_vec()
}

/// Relies on `hex::encode`: lowercase hexadecimal, two digits per byte,
/// high nibble first.
#[verifier::external_body]
fn hex_encode(bytes: &[u8]) -> (r: String)
    ensures
        r@ == hex_of(bytes@),
{
    hex::encode(bytes)
}

/// Hash a payload under a tag: frame it with the header
/// `"<tag> <length>\0"`, digest the framed bytes, and render the digest as
/// exactly 40 lowercase hexadecimal characters.
pub fn hash_object(t: ObjectType, payload: &[u8]) -> (r: String)
    ensures
        r@ == object_digest(t, payload@),
        r@.len() == 40,
{
    let framed = frame(t, payload);
    let digest = sha1_digest(framed.as_slice());
    hex_encode(digest.as_slice())
}

/// Determinism: the digest is a function of the tag and the payload alone,
/// so any two results of hashing the same payload under the same tag are
/// the same text.
pub proof fn lemma_determinism(t: ObjectType, payload: Seq<u8>, r1: Seq<char>, r2: Seq<char>)
    requires
        r1 == object_digest(t, payload),
        r2 == object_digest(t, payload),
    ensures
        r1 == r2,
{
}

} // verus!
