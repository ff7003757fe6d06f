//! The cryptographic digest a block's fields are bound by.
//!
//! The digest is SHA-256, rendered as lowercase hexadecimal.  It is named
//! rather than defined: nothing short of the full algorithm could state it,
//! so contracts speak of `sha256_hex` and the tests pin concrete values.

use vstd::prelude::*;

verus! {

/// The SHA-256 digest of the UTF-8 bytes of `s`, rendered as lowercase
/// hexadecimal: a function of the hashed characters alone.
pub uninterp spec fn sha256_hex(s: Seq<char>) -> Seq<char>;

/// Whether `c` is a lowercase hexadecimal digit.
pub open spec fn is_hex_char(c: char) -> bool {
    ('0' <= c && c <= '9') || ('a' <= c && c <= 'f')
}

/// Relies on sha2::Sha256 and its lowercase-hex rendering: the 32-byte digest
/// of the UTF-8 bytes of `s`, written as 64 characters, each a lowercase
/// hexadecimal digit.
#[verifier::external_body]
pub(crate) fn sha256_hex_of(s: &str) -> (r: String)
    ensures
        r@ == sha256_hex(s@),
        r@.len() == 64,
        forall|i: int| 0 <= i < r@.len() ==> is_hex_char(#[trigger] r@[i]),
{
    let mut hasher = <sha2::Sha256 as sha2::Digest>::new();
    sha2::Digest::update(&mut hasher, s.as_bytes());
    format!("{:x}", sha2::Digest::finalize(hasher))
}

} // verus!
