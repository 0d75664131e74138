//! Content fingerprinting: the deterministic hash of a diagram source that
//! serves as cache key and artifact filename stem.

use vstd::prelude::*;
use crypto::digest::Digest;
use crypto::sha1::Sha1;

verus! {

/// What SHA-1, rendered as lowercase hexadecimal, returns for a given text.
/// The digest is a pure function of the input characters alone; no contract
/// of this crate states what it is on any given input.
pub uninterp spec fn sha1_hex_of(s: Seq<char>) -> Seq<char>;

/// Is `c` one of the sixteen lowercase hexadecimal digits?
pub open spec fn is_lower_hex_digit(c: char) -> bool {
    ('0' <= c && c <= '9') || ('a' <= c && c <= 'f')
}

/// A fingerprint is filesystem-safe: 40 characters, each a lowercase
/// hexadecimal digit.
pub open spec fn fingerprint_shaped(s: Seq<char>) -> bool {
    s.len() == 40 && forall|i: int| 0 <= i < s.len() ==> is_lower_hex_digit(#[trigger] s[i])
}

/// Relies on crypto::sha1::Sha1 through crypto::digest::Digest::input_str
/// and result_str: the 160-bit SHA-1 digest of the input's bytes, rendered
/// as 40 lowercase hexadecimal characters, a function of the input text
/// alone.
#[verifier::external_body]
fn sha1_hex(source: &str) -> (r: String)
    ensures
        r@ == sha1_hex_of(source@),
        fingerprint_shaped(r@),
{
    let mut hasher = Sha1::new();
    hasher.input_str(source);
    hasher.result_str()
}

/// The deterministic content hash of a diagram source, serialized as a
/// filesystem-safe (lowercase hexadecimal) string for use as a filename
/// stem.
pub fn fingerprint(source: &str) -> (r: String)
    ensures
        r@ == sha1_hex_of(source@),
        fingerprint_shaped(r@),
{
    sha1_hex(source)
}

/// Law: fingerprinting is deterministic — identical diagram sources always
/// yield the same fingerprint.  (That distinct sources yield distinct
/// fingerprints holds only with overwhelming probability and is not stated
/// here.)
pub proof fn lemma_fingerprint_deterministic(s1: Seq<char>, s2: Seq<char>)
    requires
        s1 == s2,
    ensures
        sha1_hex_of(s1) == sha1_hex_of(s2),
{
}

} // verus!
