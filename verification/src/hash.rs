//! The 64-bit FNV-1a fingerprint that ties records to the text they were made from.

use vstd::prelude::*;
use vstd::string::*;
use vstd::utf8::*;
use crate::text::{blank, hex_digits, is_white, plus, to_hex};

verus! {

/// FNV-1a over 64 bits: start from the offset basis; for each byte, exclusive-or it
/// in, then multiply by the prime, modulo 2^64.
pub open spec fn fnv1a64(bytes: Seq<u8>) -> u64
    decreases bytes.len(),
{
    if bytes.len() == 0 {
        0xcbf29ce484222325u64
    } else {
        (fnv1a64(bytes.drop_last()) ^ (bytes.last() as u64)).wrapping_mul(0x100000001b3u64)
    }
}

/// The fingerprint of a text: `fnv1a64:` and sixteen hexadecimal digits.
pub open spec fn fingerprint(text: Seq<char>) -> Seq<char> {
    "fnv1a64:"@ + hex_digits(fnv1a64(encode_utf8(text)) as nat, 16)
}

/// A fingerprint is never blank.
pub proof fn lemma_fingerprint_not_blank(text: Seq<char>)
    ensures
        !blank(fingerprint(text)),
{
    reveal_strlit("fnv1a64:");
    assert(fingerprint(text)[0] == 'f');
    assert(!is_white(fingerprint(text)[0]));
}

/// The FNV-1a hash of a text's bytes.
pub fn fnv_of(text: &str) -> (hash: u64)
    ensures
        hash == fnv1a64(encode_utf8(text@)),
{
    let bytes: &[u8] = text.as_bytes();
    let mut hash: u64 = 0xcbf29ce484222325;
    let mut i: usize = 0;
    while i < bytes.len()
        invariant
            i <= bytes@.len(),
            hash == fnv1a64(bytes@.take(i as int)),
        decreases bytes@.len() - i,
    {
        assert(bytes@.take(i + 1).drop_last() =~= bytes@.take(i as int));
        hash = (hash ^ (bytes[i] as u64)).wrapping_mul(0x100000001b3);
        i += 1;
    }
    assert(bytes@.take(bytes@.len() as int) =~= bytes@);
    hash
}

/// The fingerprint of a text as it stands.
pub fn stable_text_hash(text: &str) -> (r: String)
    ensures
        r@ == fingerprint(text@),
{
    let digits: String = to_hex(fnv_of(text), 16);
    plus("fnv1a64:", digits.as_str())
}

/// The fingerprint of a value, given as the JSON text that it serialises to.
pub fn stable_hash(json: &str) -> (r: String)
    ensures
        r@ == fingerprint(json@),
{
    stable_text_hash(json)
}

} // verus!
