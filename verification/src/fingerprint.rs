//! Content fingerprints of byte buffers: the SeaHash of the bytes, as a
//! number and as a numeral in radix 36.
//!
//! The hash is not cryptographic. It is stable for one major version of the
//! `seahash` crate: version 4 gives the empty input the fingerprint
//! 14492805990617963705, written `323xyyeok3k55`.

use vstd::prelude::*;
use crate::radix::{decode_u64, encode, format_radix, is_canonical};
use crate::radix_laws::{lemma_decode_encode, lemma_encode_u64_len_36, lemma_no_leading_zero};

verus! {

/// The radix in which a fingerprint is written as text.
pub const FINGERPRINT_RADIX: u32 = 36;

/// The SeaHash of a byte sequence under the algorithm's own fixed seed.
///
/// The value is computed by the `seahash` crate and is not defined here. It
/// depends on the bytes alone: the crate reads its input in little-endian
/// lanes whatever the machine, and keeps no state between calls.
pub uninterp spec fn seahash_of(bytes: Seq<u8>) -> u64;

/// `seahash::hash` returns the SeaHash of the whole buffer, for every
/// buffer, the empty one included.
pub assume_specification[ seahash::hash ](buf: &[u8]) -> (digest: u64)
    ensures
        digest == seahash_of(buf@),
;

/// The text form of a fingerprint: the numeral of the hash in radix 36.
pub open spec fn fingerprint_text(bytes: Seq<u8>) -> Seq<char> {
    encode(seahash_of(bytes) as nat, FINGERPRINT_RADIX as nat)
}

/// The fingerprint of `input` as a number: its SeaHash. Every input has
/// one, the empty input too.
pub fn hash_plugin(input: &[u8]) -> (digest: u64)
    ensures
        digest == seahash_of(input@),
{
    seahash::hash(input)
}

/// The fingerprint of `input` as text: what [`format_radix`] writes for
/// [`hash_plugin`] of the same bytes in radix 36. The text is made of at
/// most 13 characters out of `0-9a-z`, and reading it back gives the hash.
pub fn hash_plugin_to_string(input: &[u8]) -> (text: String)
    ensures
        text@ == fingerprint_text(input@),
        text@ == encode(seahash_of(input@) as nat, 36),
        decode_u64(text@, 36) == Some(seahash_of(input@)),
        is_canonical(text@, 36),
        1 <= text@.len() <= 13,
{
    proof {
        lemma_encode_u64_len_36(seahash_of(input@));
    }
    format_radix(hash_plugin(input), FINGERPRINT_RADIX)
}

/// Determinism: two inputs with the same bytes in the same places have the
/// same fingerprint, as a number and as text.
pub proof fn lemma_fingerprint_deterministic(a: Seq<u8>, b: Seq<u8>)
    requires
        a.len() == b.len(),
        forall|i: int| 0 <= i < a.len() ==> a[i] == b[i],
    ensures
        seahash_of(a) == seahash_of(b),
        fingerprint_text(a) == fingerprint_text(b),
{
    assert(a =~= b);
}

/// The text of a fingerprint is a canonical numeral in radix 36 of at most
/// 13 digits, and it denotes the hash.
pub proof fn lemma_fingerprint_text_denotes_hash(bytes: Seq<u8>)
    ensures
        is_canonical(fingerprint_text(bytes), 36),
        1 <= fingerprint_text(bytes).len() <= 13,
        decode_u64(fingerprint_text(bytes), 36) == Some(seahash_of(bytes)),
{
    lemma_decode_encode(seahash_of(bytes) as nat, 36);
    lemma_no_leading_zero(seahash_of(bytes) as nat, 36);
    lemma_encode_u64_len_36(seahash_of(bytes));
}

/// The text of a fingerprint loses nothing: inputs with the same text have
/// the same hash.
pub proof fn lemma_fingerprint_text_injective(a: Seq<u8>, b: Seq<u8>)
    requires
        fingerprint_text(a) == fingerprint_text(b),
    ensures
        seahash_of(a) == seahash_of(b),
{
    lemma_fingerprint_text_denotes_hash(a);
    lemma_fingerprint_text_denotes_hash(b);
}

} // verus!
