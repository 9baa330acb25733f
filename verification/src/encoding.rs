//! File payloads travel as standard base64 text (with padding); file names are taken
//! from the last component of a path.
use vstd::prelude::*;

use base64::Engine;

use crate::protocol::opt_seq;

verus! {

/// The standard base64 text (RFC 4648 alphabet, with `=` padding) of a byte string.
pub uninterp spec fn base64_encoding(data: Seq<u8>) -> Seq<char>;

/// The bytes that a text decodes to under standard base64 with canonical padding, or
/// `None` when the text is not such an encoding.
pub uninterp spec fn base64_decoding(text: Seq<char>) -> Option<Seq<u8>>;

/// What `Path::file_name` gives for a path written as text: its last component when
/// that is a normal name (not `..`, not the root).
pub uninterp spec fn path_file_name(path: Seq<char>) -> Option<Seq<char>>;

/// Whether the base64 text of `n` bytes has a length that a `usize` can hold (the
/// encoder panics otherwise).
pub open spec fn encodable(n: int) -> bool {
    (n / 3) * 4 + (if n % 3 > 0 { 4int } else { 0int }) <= usize::MAX
}

/// Whether the base64 text of `n` bytes has a length that a `usize` can hold (see
/// `encodable`).
pub fn fits_base64(n: usize) -> (r: bool)
    ensures
        r == encodable(n as int),
{
    let q = n / 3;
    let extra: usize = if n % 3 > 0 {
        4
    } else {
        0
    };
    q <= (usize::MAX - extra) / 4
}

/// The error type of base64 decoding.
#[verifier::external_type_specification]
#[verifier::external_body]
pub struct ExDecodeError(base64::DecodeError);

/// Calls `Engine::encode` of `base64::engine::general_purpose::STANDARD`. Claimed: the
/// text is `base64_encoding` of the bytes, and decoding it with the same engine gives
/// the bytes back (the engine pads on encoding and requires canonical padding on
/// decoding). The encoder panics when the output length overflows a `usize`, which the
/// `requires` leaves out.
#[verifier::external_body]
pub(crate) fn encode_base64(data: &[u8]) -> (r: String)
    requires
        encodable(data@.len() as int),
    ensures
        r@ == base64_encoding(data@),
        base64_decoding(r@) == Some(data@),
{
    base64::engine::general_purpose::STANDARD.encode(data)
}

/// Calls `Engine::decode` of `base64::engine::general_purpose::STANDARD`. Claimed: it
/// succeeds exactly when `base64_decoding` of the text is some bytes, and then returns
/// them; decoded bytes are never more than the symbols they came from.
#[verifier::external_body]
pub(crate) fn decode_base64(text: &str) -> (r: Result<Vec<u8>, base64::DecodeError>)
    ensures
        r is Ok <==> base64_decoding(text@) is Some,
        r matches Ok(v) ==> Some(v@) == base64_decoding(text@) && v@.len() <= text@.len(),
{
    base64::engine::general_purpose::STANDARD.decode(text)
}

/// The bytes that a standard base64 text encodes, or `None` when it is not valid.
pub fn decoded_bytes(text: &str) -> (r: Option<Vec<u8>>)
    ensures
        match r {
            Some(v) => base64_decoding(text@) == Some(v@) && v@.len() <= text@.len(),
            None => base64_decoding(text@) is None,
        },
{
    match decode_base64(text) {
        Ok(v) => Some(v),
        Err(_) => None,
    }
}

/// Calls `std::path::Path::file_name` on the path and converts the component back to
/// text with `OsStr::to_str` (which cannot fail for a component of a `str`). Claimed:
/// the result is `path_file_name` of the path, a function of the path alone.
#[verifier::external_body]
pub(crate) fn file_name_of(path: &str) -> (r: Option<String>)
    ensures
        opt_seq(r) == path_file_name(path@),
{
    match std::path::Path::new(path).file_name() {
        Some(n) => match n.to_str() {
            Some(s) => Some(s.to_string()),
            None => None,
        },
        None => None,
    }
}

/// The name of a file as its path gives it, `file` when the path names none.
pub open spec fn file_name_or_default(path: Seq<char>) -> Seq<char> {
    match path_file_name(path) {
        Some(n) => n,
        None => "file"@,
    }
}

/// The name of a file as its path gives it (see `file_name_or_default`).
pub fn file_name_or_default_of(path: &str) -> (r: String)
    ensures
        r@ == file_name_or_default(path@),
{
    match file_name_of(path) {
        Some(n) => n,
        None => crate::text::owned("file"),
    }
}

} // verus!
