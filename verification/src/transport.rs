//! Framing of one call on its connection.
//!
//! A request is written as its text followed by the terminator. The answer is
//! read piece by piece until what has arrived ends with the terminator, which
//! is then cut off; the rest must be UTF-8 and is trimmed. Connecting, the TLS
//! handshake, reading and writing are the caller's part: this module decides
//! what is written and when the answer is complete.

use vstd::prelude::*;
use vstd::utf8::{decode_utf8, valid_utf8};
use crate::error::Error;
use crate::text::is_white_space;

verus! {

/// The byte of which three in a row end a frame. Base64 text never holds it.
pub const MARK_BYTE: u8 = 0x0a;

/// The number of bytes of the terminator.
pub const MARK_LEN: usize = 3;

/// The terminator: three line feeds.
pub open spec fn end_mark() -> Seq<u8> {
    seq![MARK_BYTE, MARK_BYTE, MARK_BYTE]
}

/// Whether `buffer` ends with the terminator.
pub open spec fn ends_with_mark(buffer: Seq<u8>) -> bool {
    buffer.len() >= MARK_LEN && buffer.skip(buffer.len() - MARK_LEN) == end_mark()
}

/// `inner` is a part of `text`, and all that stands before and behind it is
/// white space.
pub open spec fn is_inner_part(inner: Seq<char>, text: Seq<char>) -> bool {
    exists|from: int, to: int|
        {
            &&& 0 <= from <= to <= text.len()
            &&& inner == #[trigger] text.subrange(from, to)
            &&& forall|i: int|
                0 <= i < from || to <= i < text.len() ==> is_white_space(#[trigger] text[i])
        }
}

/// `inner` is `text` without the white space at its two ends.
pub open spec fn is_trim_of(inner: Seq<char>, text: Seq<char>) -> bool {
    &&& is_inner_part(inner, text)
    &&& inner.len() > 0 ==> !is_white_space(inner.first()) && !is_white_space(inner.last())
}

/// The error of `String::from_utf8`. Only carried, never inspected.
#[verifier::external_type_specification]
#[verifier::external_body]
pub struct ExFromUtf8Error(std::string::FromUtf8Error);

/// Calls `String::from_utf8`.
///
/// Trusted: the bytes are accepted exactly when they are UTF-8, and the
/// string then holds the characters that they encode.
#[verifier::external_body]
fn string_from_utf8(bytes: Vec<u8>) -> (text: Result<String, std::string::FromUtf8Error>)
    ensures
        text is Ok <==> valid_utf8(bytes@),
        text matches Ok(s) ==> s@ == decode_utf8(bytes@),
{
    String::from_utf8(bytes)
}

/// Calls `str::trim`.
///
/// Trusted: the result is a part of the text; all that stands before and
/// behind it is white space; and it neither begins nor ends with white space.
#[verifier::external_body]
fn trim_text<'a>(text: &'a str) -> (inner: &'a str)
    ensures
        is_inner_part(inner@, text@),
        inner@.len() > 0 ==> !is_white_space(inner@.first()) && !is_white_space(inner@.last()),
{
    text.trim()
}

/// The bytes to write for one request: its text, then the terminator.
pub fn frame_request(request: &[u8]) -> (frame: Vec<u8>)
    ensures
        frame@ == request@ + end_mark(),
{
    let mut frame: Vec<u8> = Vec::new();
    frame.extend_from_slice(request);
    frame.push(MARK_BYTE);
    frame.push(MARK_BYTE);
    frame.push(MARK_BYTE);
    assert(frame@ =~= request@ + end_mark());
    frame
}

/// Whether what has arrived ends with the terminator.
pub fn is_complete(buffer: &Vec<u8>) -> (complete: bool)
    ensures
        complete == ends_with_mark(buffer@),
{
    let n = buffer.len();
    if n < MARK_LEN {
        return false;
    }
    let complete = buffer[n - 3] == MARK_BYTE && buffer[n - 2] == MARK_BYTE && buffer[n - 1]
        == MARK_BYTE;
    proof {
        let tail = buffer@.skip(n - MARK_LEN);
        assert(tail.len() == 3);
        assert(tail[0] == buffer@[n - 3] && tail[1] == buffer@[n - 2] && tail[2] == buffer@[n
            - 1]);
        if complete {
            assert(tail =~= end_mark());
        }
    }
    complete
}

/// What has arrived after one more read of `chunk`, and whether reading is
/// over (the second part).
pub open spec fn absorbed(buffer: Seq<u8>, chunk: Seq<u8>) -> (Seq<u8>, bool) {
    if chunk.len() == 0 {
        (buffer, true)
    } else if ends_with_mark(buffer + chunk) {
        ((buffer + chunk).take((buffer + chunk).len() - MARK_LEN), true)
    } else {
        (buffer + chunk, false)
    }
}

/// A frame that arrives in one read is taken in whole: reading is over and
/// what is left is the text without its terminator.
pub proof fn lemma_frame_is_absorbed(text: Seq<u8>)
    ensures
        absorbed(Seq::empty(), text + end_mark()) == (text, true),
        ends_with_mark(text + end_mark()),
{
    let frame = text + end_mark();
    assert(Seq::<u8>::empty() + frame =~= frame);
    assert(frame.skip(frame.len() - MARK_LEN) =~= end_mark());
    assert(frame.take(frame.len() - MARK_LEN) =~= text);
}

/// Takes in what one read returned and tells whether reading is over.
///
/// An empty read means that the peer closed: reading is over and the buffer
/// stays as it is. Otherwise the bytes are appended; if the buffer then ends
/// with the terminator, the terminator is cut off and reading is over.
pub fn absorb(buffer: &mut Vec<u8>, chunk: &[u8]) -> (done: bool)
    ensures
        final(buffer)@ == absorbed(old(buffer)@, chunk@).0,
        done == absorbed(old(buffer)@, chunk@).1,
{
    if chunk.len() == 0 {
        return true;
    }
    buffer.extend_from_slice(chunk);
    assert(buffer@ =~= old(buffer)@ + chunk@);
    if is_complete(buffer) {
        let n = buffer.len();
        buffer.truncate(n - MARK_LEN);
        assert(buffer@ =~= (old(buffer)@ + chunk@).take(n - MARK_LEN));
        true
    } else {
        false
    }
}

/// The text of a response from the bytes that arrived.
///
/// Bytes that are not UTF-8 are an encoding failure. Otherwise the text is
/// what the bytes encode, without the white space at its two ends.
pub fn response_text(buffer: Vec<u8>) -> (text: Result<String, Error>)
    ensures
        match text {
            Ok(inner) => valid_utf8(buffer@) && is_trim_of(inner@, decode_utf8(buffer@)),
            Err(e) => !valid_utf8(buffer@) && e == Error::Encoding,
        },
{
    match string_from_utf8(buffer) {
        Ok(whole) => Ok(trim_text(whole.as_str()).to_owned()),
        Err(_) => Err(Error::Encoding),
    }
}

} // verus!
