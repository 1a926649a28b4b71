//! The hashing and encoding that the registry takes from outside crates.
use vstd::prelude::*;
use sha2::Digest;

verus! {

/// The SHA-256 digest of `data`, as `sha2` computes it.
pub uninterp spec fn sha256(data: Seq<u8>) -> Seq<u8>;

/// Calls `<sha2::Sha256 as Digest>::digest` (the same digest that a fresh
/// hasher gives after one `update` and `finalize`). Claims only that the
/// result is `sha256` of the input.
#[verifier::external_body]
pub(crate) fn sha256_digest(data: &[u8]) -> (r: Vec<u8>)
    ensures
        r@ == sha256(data@),
{
    sha2::Sha256::digest(data).to_vec()
}

/// The hex digit of the value `d` (0 to 15), in lower case.
pub open spec fn hex_digit(d: int) -> char {
    if d < 10 {
        ('0' as int + d) as char
    } else {
        ('a' as int + d - 10) as char
    }
}

/// Lower-case hex of `data`: two digits per byte, high half first.
pub open spec fn hex_lower(data: Seq<u8>) -> Seq<char>
    decreases data.len(),
{
    if data.len() == 0 {
        Seq::empty()
    } else {
        hex_lower(data.drop_last()) + seq![
            hex_digit(data.last() as int / 16),
            hex_digit(data.last() as int % 16),
        ]
    }
}

/// Calls `hex::encode`. Claims what its documentation and source state:
/// each byte becomes two lower-case hex digits, high half first.
#[verifier::external_body]
pub(crate) fn hex_encode(data: &[u8]) -> (r: String)
    ensures
        r@ == hex_lower(data@),
{
    hex::encode(data)
}

/// What `base64`'s standard engine (RFC 4648 alphabet, canonical padding)
/// decodes `text` to, or nothing where it refuses the text.
pub uninterp spec fn base64_standard_decode(text: Seq<char>) -> Option<Seq<u8>>;

#[verifier::external_type_specification]
#[verifier::external_body]
pub struct ExDecodeError(base64::DecodeError);

/// Calls `Engine::decode` of `base64::engine::general_purpose::STANDARD`.
/// Claims only that it succeeds exactly where `base64_standard_decode` gives
/// a value, and then returns that value.
#[verifier::external_body]
pub(crate) fn base64_decode(text: &str) -> (r: Result<Vec<u8>, base64::DecodeError>)
    ensures
        (r is Ok) == (base64_standard_decode(text@) is Some),
        r matches Ok(v) ==> base64_standard_decode(text@) == Some(v@),
{
    base64::Engine::decode(&base64::engine::general_purpose::STANDARD, text)
}

} // verus!
