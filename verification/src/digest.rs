//! Hashing of localization-file content for change tracking: a SHA-256 digest
//! rendered as lowercase hex.

use vstd::prelude::*;

use sha2::Digest;

verus! {

/// The SHA-256 digest of the UTF-8 encoding of a character sequence.
pub uninterp spec fn sha256_of(s: Seq<char>) -> Seq<u8>;

/// The lowercase hex character for a value below sixteen.
pub open spec fn hex_digit_char(d: int) -> char {
    if d == 0 {
        '0'
    } else if d == 1 {
        '1'
    } else if d == 2 {
        '2'
    } else if d == 3 {
        '3'
    } else if d == 4 {
        '4'
    } else if d == 5 {
        '5'
    } else if d == 6 {
        '6'
    } else if d == 7 {
        '7'
    } else if d == 8 {
        '8'
    } else if d == 9 {
        '9'
    } else if d == 10 {
        'a'
    } else if d == 11 {
        'b'
    } else if d == 12 {
        'c'
    } else if d == 13 {
        'd'
    } else if d == 14 {
        'e'
    } else {
        'f'
    }
}

/// The lowercase hex encoding of a byte sequence: two digits per byte, high
/// nibble first.
pub open spec fn hex_lower(b: Seq<u8>) -> Seq<char>
    decreases b.len(),
{
    if b.len() == 0 {
        Seq::empty()
    } else {
        seq![hex_digit_char(b[0] as int / 16), hex_digit_char(b[0] as int % 16)] + hex_lower(
            b.drop_first(),
        )
    }
}

/// Relies on `sha2::Sha256::digest`: the 32-byte digest is a function of the
/// input bytes alone.
#[verifier::external_body]
fn sha256_digest(input: &str) -> (r: Vec<u8>)
    ensures
        r@ == sha256_of(input@),
        r@.len() == 32,
{
    sha2::Sha256::digest(input.as_bytes()).to_vec()
}

/// Relies on `base16ct::lower::encode_string`: two lowercase hex digits per
/// input byte, high nibble first. The function panics on inputs longer than
/// half the address space, which the precondition rules out.
#[verifier::external_body]
fn hex_encode_lower(bytes: &Vec<u8>) -> (r: String)
    requires
        bytes@.len() <= usize::MAX / 2,
    ensures
        r@ == hex_lower(bytes@),
{
    base16ct::lower::encode_string(bytes.as_slice())
}

/// The lowercase hex rendering of the SHA-256 digest of `input`.
pub fn sha256_string(input: &str) -> (r: String)
    ensures
        r@ == hex_lower(sha256_of(input@)),
        r@.len() == 64,
{
    let digest = sha256_digest(input);
    proof {
        lemma_hex_lower_len(digest@);
    }
    hex_encode_lower(&digest)
}

proof fn lemma_hex_lower_len(b: Seq<u8>)
    ensures
        hex_lower(b).len() == 2 * b.len(),
    decreases b.len(),
{
    if b.len() > 0 {
        lemma_hex_lower_len(b.drop_first());
    }
}

} // verus!
