//! Base64 text for the session and payload fields of a frame.
//!
//! The encoding itself is the `base64` crate's standard engine. Nothing here is
//! proved of it: the two functions below state what the rest of the library
//! relies on.

use vstd::prelude::*;
use base64::Engine;

verus! {

/// The text that the standard padded base64 engine produces for `data`.
pub uninterp spec fn base64_text(data: Seq<u8>) -> Seq<u8>;

/// The bytes that the standard padded base64 engine reads from `text`, if it
/// accepts `text`.
pub uninterp spec fn base64_data(text: Seq<u8>) -> Option<Seq<u8>>;

/// The error of a refused base64 text. Only carried, never inspected.
#[verifier::external_type_specification]
#[verifier::external_body]
pub struct ExDecodeError(base64::DecodeError);

/// The characters of the standard alphabet, and the padding character.
pub open spec fn is_base64_byte(b: u8) -> bool {
    ||| 0x41 <= b <= 0x5a
    ||| 0x61 <= b <= 0x7a
    ||| 0x30 <= b <= 0x39
    ||| b == 0x2b
    ||| b == 0x2f
    ||| b == 0x3d
}

/// The length of the padded base64 text of `len` bytes.
pub open spec fn base64_len(len: nat) -> nat {
    4 * ((len + 2) / 3)
}

/// Calls `base64::engine::general_purpose::STANDARD.encode`.
///
/// Trusted: the text is a function of the data alone, the same engine decodes
/// it back to the data, it has four characters for every three bytes begun, and
/// it is made of the standard alphabet and `=`. The engine panics when the
/// text's length cannot be represented, which `requires` leaves out.
#[verifier::external_body]
pub(crate) fn encode_base64(data: &[u8]) -> (text: Vec<u8>)
    requires
        base64_len(data@.len()) <= isize::MAX,
    ensures
        text@ == base64_text(data@),
        base64_data(text@) == Some(data@),
        text@.len() == base64_len(data@.len()),
        forall|i: int| 0 <= i < text@.len() ==> is_base64_byte(#[trigger] text@[i]),
{
    base64::engine::general_purpose::STANDARD.encode(data).into_bytes()
}

/// Calls `base64::engine::general_purpose::STANDARD.decode`.
///
/// Trusted: whether the text is accepted, and the bytes read from it, are a
/// function of the text alone.
#[verifier::external_body]
pub(crate) fn decode_base64(text: &[u8]) -> (data: Result<Vec<u8>, base64::DecodeError>)
    ensures
        data matches Ok(d) ==> base64_data(text@) == Some(d@),
        data is Err ==> base64_data(text@) is None,
{
    base64::engine::general_purpose::STANDARD.decode(text)
}

} // verus!
