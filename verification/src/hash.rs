//! Content hashes: the SHA-1 digest of a file's bytes, written as lowercase hex.

use vstd::prelude::*;

verus! {

/// The SHA-1 digest of `data`, as computed by the `sha1` crate.
pub uninterp spec fn sha1_digest(data: Seq<u8>) -> Seq<u8>;

/// Calls `sha1::Sha1::digest` (the one-shot form of `new`, `update`,
/// `finalize`) and copies the resulting array into a vector.
///
/// Trusted: the result is the SHA-1 digest of `data`, a function of the bytes
/// alone. Nothing else is claimed of it.
#[verifier::external_body]
fn sha1_of(data: &[u8]) -> (digest: Vec<u8>)
    ensures
        digest@ == sha1_digest(data@),
{
    <sha1::Sha1 as sha1::Digest>::digest(data).to_vec()
}

/// The lowercase hexadecimal digit for a value below sixteen.
pub open spec fn hex_digit(nibble: int) -> char {
    if nibble < 10 {
        ((48 + nibble) as u8) as char
    } else {
        ((87 + nibble) as u8) as char
    }
}

/// The character at position `index` of the hex encoding of `bytes`: the high
/// half of a byte comes first.
pub open spec fn hex_char_at(bytes: Seq<u8>, index: int) -> char {
    if index % 2 == 0 {
        hex_digit(bytes[index / 2] as int / 16)
    } else {
        hex_digit(bytes[index / 2] as int % 16)
    }
}

/// Lowercase hex encoding: two digits per byte, most significant first.
pub open spec fn hex_lower(bytes: Seq<u8>) -> Seq<char> {
    Seq::new(2 * bytes.len(), |index: int| hex_char_at(bytes, index))
}

/// The content hash of a file: the lowercase hex form of its SHA-1 digest.
pub open spec fn content_hash(data: Seq<u8>) -> Seq<char> {
    hex_lower(sha1_digest(data))
}

fn hex_digit_of(nibble: u8) -> (digit: char)
    requires
        nibble < 16,
    ensures
        digit == hex_digit(nibble as int),
{
    if nibble < 10 {
        (48u8 + nibble) as char
    } else {
        (87u8 + nibble) as char
    }
}

/// Encodes `bytes` as lowercase hex.
pub fn to_hex_lower(bytes: &[u8]) -> (text: String)
    ensures
        text@ == hex_lower(bytes@),
{
    let mut text = String::new();
    let mut done: usize = 0;
    while done < bytes.len()
        invariant
            done <= bytes.len(),
            text@.len() == 2 * done,
            forall|index: int| 0 <= index < text@.len() ==> text@[index] == hex_char_at(bytes@, index),
        decreases bytes.len() - done,
    {
        let byte: u8 = bytes[done];
        text.push(hex_digit_of(byte / 16));
        text.push(hex_digit_of(byte % 16));
        done = done + 1;
    }
    text
}

/// Computes the content hash of `data`.
pub fn hash_content(data: &[u8]) -> (text: String)
    ensures
        text@ == content_hash(data@),
{
    let digest = sha1_of(data);
    to_hex_lower(digest.as_slice())
}

} // verus!
