//! Text forms of keys: base-58 strings and bracketed byte lists.
use vstd::prelude::*;

verus! {

/// Why a text could not be read as bytes.
#[derive(Clone, Copy, Debug, PartialEq, Eq, Structural)]
pub enum CodecError {
    /// A character outside the base-58 alphabet.
    InvalidEncoding,
    /// Not a bracketed, comma-separated list of integers in 0..=255.
    MalformedArrayLiteral,
}

/// A character of the base-58 alphabet: digits and letters without `0`,
/// `O`, `I` and `l`.
pub open spec fn is_base58_char(c: char) -> bool {
    ||| ('1' <= c && c <= '9')
    ||| ('A' <= c && c <= 'H')
    ||| ('J' <= c && c <= 'N')
    ||| ('P' <= c && c <= 'Z')
    ||| ('a' <= c && c <= 'k')
    ||| ('m' <= c && c <= 'z')
}

/// Every character of `s` is in the base-58 alphabet.
pub open spec fn is_base58_text(s: Seq<char>) -> bool {
    forall|i: int| 0 <= i < s.len() ==> is_base58_char(s[i])
}

/// The base-58 text of some bytes.
pub uninterp spec fn base58_text_of(bytes: Seq<u8>) -> Seq<char>;

/// The bytes that a base-58 text stands for.
pub uninterp spec fn base58_bytes_of(text: Seq<char>) -> Seq<u8>;

/// Relies on bs58::encode(..).into_string: the base-58 text of the bytes,
/// written with the alphabet's characters only.
#[verifier::external_body]
fn bs58_encode(bytes: &Vec<u8>) -> (r: String)
    ensures
        r@ == base58_text_of(bytes@),
        is_base58_text(r@),
{
    bs58::encode(bytes).into_string()
}

/// Relies on bs58::decode(..).into_vec: it fails exactly where a character
/// is outside the alphabet.
#[verifier::external_body]
fn bs58_decode(text: &str) -> (r: Option<Vec<u8>>)
    ensures
        r is Some <==> is_base58_text(text@),
        r is Some ==> r->Some_0@ == base58_bytes_of(text@),
{
    bs58::decode(text).into_vec().ok()
}

/// The base-58 text of `bytes`. It never fails, and what it returns always
/// decodes.
pub fn encode_base58(bytes: &Vec<u8>) -> (r: String)
    ensures
        r@ == base58_text_of(bytes@),
        is_base58_text(r@),
{
    bs58_encode(bytes)
}

/// The bytes that `text` encodes in base 58; `InvalidEncoding` exactly when
/// a character is outside the alphabet. No length is imposed.
pub fn decode_base58(text: &str) -> (r: Result<Vec<u8>, CodecError>)
    ensures
        r is Ok <==> is_base58_text(text@),
        r is Ok ==> r->Ok_0@ == base58_bytes_of(text@),
        r is Err ==> r == Err::<Vec<u8>, CodecError>(CodecError::InvalidEncoding),
{
    match bs58_decode(text) {
        Some(v) => Ok(v),
        None => Err(CodecError::InvalidEncoding),
    }
}

} // verus!
