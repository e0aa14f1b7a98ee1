//! The wire codec: one request becomes one line of text, one line of text
//! becomes one response.
//!
//! A frame is three fields separated by single spaces: a method (or, in a
//! response, the success flag), the session and the payload. Session and
//! payload are JSON documents in base64; a lone `.` stands for "no session",
//! the empty field for "no payload". Base64 text holds neither the separator
//! nor the terminator, which is what keeps the fields apart.

use vstd::prelude::*;
use vstd::slice::slice_subrange;
use vstd::string::StringSliceAdditionalSpecFns;
use crate::control::ControlBlock;
use crate::encoding::{base64_data, base64_len, base64_text, decode_base64, encode_base64, is_base64_byte};

verus! {

/// The byte between two fields of a frame.
pub const SEPARATOR: u8 = 0x20;

/// The byte that alone makes the field of an absent session.
pub const ABSENT: u8 = 0x2e;

/// A request before it is put on the wire.
#[derive(Debug)]
pub struct Payload<T> {
    pub method: String,
    pub block: Option<ControlBlock>,
    pub content: Option<T>,
}

/// A response after its documents were read into values.
#[derive(Debug)]
pub struct Resp<R> {
    pub success: bool,
    pub block: Option<ControlBlock>,
    pub content: Option<R>,
}

/// A response as the codec reads it: the flag, and the two JSON documents as
/// bytes, each absent where its field was missing, empty, `.` or not base64.
#[derive(Debug)]
pub struct RawResp {
    pub success: bool,
    pub block: Option<Vec<u8>>,
    pub content: Option<Vec<u8>>,
}

/// What a [`RawResp`] holds.
pub struct RawRespView {
    pub success: bool,
    pub block: Option<Seq<u8>>,
    pub content: Option<Seq<u8>>,
}

impl View for RawResp {
    type V = RawRespView;

    open spec fn view(&self) -> RawRespView {
        RawRespView {
            success: self.success,
            block: match self.block {
                Some(doc) => Some(doc@),
                None => None,
            },
            content: match self.content {
                Some(doc) => Some(doc@),
                None => None,
            },
        }
    }
}

/// The first three fields of a line of text.
pub struct Fields {
    pub first: Seq<u8>,
    pub second: Option<Seq<u8>>,
    pub third: Option<Seq<u8>>,
}

/// The text `true`.
pub open spec fn true_text() -> Seq<u8> {
    seq![0x74u8, 0x72u8, 0x75u8, 0x65u8]
}

/// No byte of `text` is the separator.
pub open spec fn is_token(text: Seq<u8>) -> bool {
    forall|i: int| 0 <= i < text.len() ==> #[trigger] text[i] != SEPARATOR
}

/// The number of bytes before the first separator of `text`.
pub open spec fn field_len(text: Seq<u8>) -> nat
    decreases text.len(),
{
    if text.len() == 0 || text[0] == SEPARATOR {
        0
    } else {
        1 + field_len(text.skip(1))
    }
}

/// The bytes before the first separator of `text`.
pub open spec fn leading_field(text: Seq<u8>) -> Seq<u8> {
    text.take(field_len(text) as int)
}

/// The bytes behind the first separator of `text`, if it has one.
pub open spec fn after_field(text: Seq<u8>) -> Option<Seq<u8>> {
    if field_len(text) < text.len() {
        Some(text.skip(field_len(text) as int + 1))
    } else {
        None
    }
}

/// The first three of the fields that single separators cut `text` into.
pub open spec fn fields_of(text: Seq<u8>) -> Fields {
    match after_field(text) {
        None => Fields { first: leading_field(text), second: None, third: None },
        Some(rest) => match after_field(rest) {
            None => Fields {
                first: leading_field(text),
                second: Some(leading_field(rest)),
                third: None,
            },
            Some(tail) => Fields {
                first: leading_field(text),
                second: Some(leading_field(rest)),
                third: Some(leading_field(tail)),
            },
        },
    }
}

/// Three fields joined by single separators.
pub open spec fn frame_text(first: Seq<u8>, second: Seq<u8>, third: Seq<u8>) -> Seq<u8> {
    first + seq![SEPARATOR] + second + seq![SEPARATOR] + third
}

/// The session field of a request.
pub open spec fn session_field(block: Option<Seq<u8>>) -> Seq<u8> {
    match block {
        Some(doc) => base64_text(doc),
        None => seq![ABSENT],
    }
}

/// The payload field of a request.
pub open spec fn payload_field(content: Option<Seq<u8>>) -> Seq<u8> {
    match content {
        Some(doc) => base64_text(doc),
        None => Seq::empty(),
    }
}

/// A field is read without asking the decoder when it is missing, empty or `.`.
pub open spec fn is_blank(field: Option<Seq<u8>>) -> bool {
    match field {
        Some(text) => text.len() == 0 || text == seq![ABSENT],
        None => true,
    }
}

/// The document that a field of a response carries.
pub open spec fn field_document(field: Option<Seq<u8>>) -> Option<Seq<u8>> {
    if is_blank(field) {
        None
    } else {
        base64_data(field->0)
    }
}

/// The response that a line of text stands for.
pub open spec fn resp_of(text: Seq<u8>) -> RawRespView {
    let fields = fields_of(text);
    RawRespView {
        success: fields.first == true_text(),
        block: field_document(fields.second),
        content: field_document(fields.third),
    }
}

/// A document as a response gives it back: an empty one is no document.
pub open spec fn present(doc: Option<Seq<u8>>) -> Option<Seq<u8>> {
    match doc {
        Some(bytes) => if bytes.len() > 0 {
            Some(bytes)
        } else {
            None
        },
        None => None,
    }
}

/// `field_len` is the place of the first separator.
pub proof fn lemma_field_len(text: Seq<u8>, n: int)
    requires
        0 <= n <= text.len(),
        forall|i: int| 0 <= i < n ==> #[trigger] text[i] != SEPARATOR,
        n < text.len() ==> text[n] == SEPARATOR,
    ensures
        field_len(text) == n,
    decreases n,
{
    if n > 0 {
        let rest = text.skip(1);
        assert forall|i: int| 0 <= i < n - 1 implies #[trigger] rest[i] != SEPARATOR by {
            assert(rest[i] == text[i + 1]);
        }
        lemma_field_len(rest, n - 1);
    }
}

/// A token followed by a separator is cut off whole.
pub proof fn lemma_token_then_rest(token: Seq<u8>, rest: Seq<u8>)
    requires
        is_token(token),
    ensures
        leading_field(token + seq![SEPARATOR] + rest) == token,
        after_field(token + seq![SEPARATOR] + rest) == Some(rest),
{
    let text = token + seq![SEPARATOR] + rest;
    assert forall|i: int| 0 <= i < token.len() implies #[trigger] text[i] != SEPARATOR by {
        assert(text[i] == token[i]);
    }
    lemma_field_len(text, token.len() as int);
    assert(text.take(token.len() as int) =~= token);
    assert(text.skip(token.len() as int + 1) =~= rest);
}

/// A token alone is one field with nothing behind it.
pub proof fn lemma_token_alone(token: Seq<u8>)
    requires
        is_token(token),
    ensures
        leading_field(token) == token,
        after_field(token) is None,
{
    lemma_field_len(token, token.len() as int);
    assert(token.take(token.len() as int) =~= token);
}

/// Cutting apart what was joined gives the three fields back, as long as none
/// of them holds the separator.
pub proof fn lemma_fields_of_frame(first: Seq<u8>, second: Seq<u8>, third: Seq<u8>)
    requires
        is_token(first),
        is_token(second),
        is_token(third),
    ensures
        fields_of(frame_text(first, second, third)) == (Fields {
            first,
            second: Some(second),
            third: Some(third),
        }),
{
    let rest = second + seq![SEPARATOR] + third;
    assert(frame_text(first, second, third) =~= first + seq![SEPARATOR] + rest);
    lemma_token_then_rest(first, rest);
    lemma_token_then_rest(second, third);
    lemma_token_alone(third);
}

/// A frame whose session field is the lone `.` reads as a response without a
/// session, whatever the other fields hold.
pub proof fn lemma_absent_session_reads_absent(first: Seq<u8>, third: Seq<u8>)
    requires
        is_token(first),
        is_token(third),
    ensures
        resp_of(frame_text(first, session_field(None), third)).block is None,
{
    assert(is_token(seq![ABSENT]));
    lemma_fields_of_frame(first, seq![ABSENT], third);
}

/// Finds the end of the field that starts at `from`.
fn field_end(text: &[u8], from: usize) -> (end: usize)
    requires
        from <= text@.len(),
    ensures
        end == from + field_len(text@.skip(from as int)),
        from <= end <= text@.len(),
{
    let mut end: usize = from;
    while end < text.len() && text[end] != SEPARATOR
        invariant
            from <= end <= text@.len(),
            forall|i: int| from <= i < end ==> #[trigger] text@[i] != SEPARATOR,
        decreases text@.len() - end,
    {
        end += 1;
    }
    proof {
        let rest = text@.skip(from as int);
        assert forall|i: int| 0 <= i < end - from implies #[trigger] rest[i] != SEPARATOR by {
            assert(rest[i] == text@[from + i]);
        }
        lemma_field_len(rest, end - from);
    }
    end
}

/// Cuts the leading field off `text`: the field, and what stands behind its
/// separator if there is one.
fn cut_field<'a>(text: &'a [u8]) -> (cut: (&'a [u8], Option<&'a [u8]>))
    ensures
        cut.0@ == leading_field(text@),
        match cut.1 {
            Some(rest) => after_field(text@) == Some(rest@),
            None => after_field(text@) is None,
        },
{
    let end = field_end(text, 0);
    assert(text@.skip(0) =~= text@);
    let field = slice_subrange(text, 0, end);
    if end < text.len() {
        let rest = slice_subrange(text, end + 1, text.len());
        (field, Some(rest))
    } else {
        (field, None)
    }
}

/// Cuts a line of text into its first three fields. Fields behind the third
/// are left unread.
pub fn split_fields<'a>(text: &'a [u8]) -> (parts: (&'a [u8], Option<&'a [u8]>, Option<&'a [u8]>))
    ensures
        parts.0@ == fields_of(text@).first,
        match parts.1 {
            Some(field) => fields_of(text@).second == Some(field@),
            None => fields_of(text@).second is None,
        },
        match parts.2 {
            Some(field) => fields_of(text@).third == Some(field@),
            None => fields_of(text@).third is None,
        },
{
    let (first, rest) = cut_field(text);
    match rest {
        None => (first, None, None),
        Some(rest) => {
            let (second, tail) = cut_field(rest);
            match tail {
                None => (first, Some(second), None),
                Some(tail) => {
                    let (third, _) = cut_field(tail);
                    (first, Some(second), Some(third))
                },
            }
        },
    }
}

/// Joins three fields with single separators.
pub fn join_fields(first: &[u8], second: &[u8], third: &[u8]) -> (text: Vec<u8>)
    ensures
        text@ == frame_text(first@, second@, third@),
{
    let mut text: Vec<u8> = Vec::new();
    text.extend_from_slice(first);
    text.push(SEPARATOR);
    text.extend_from_slice(second);
    text.push(SEPARATOR);
    text.extend_from_slice(third);
    assert(text@ =~= frame_text(first@, second@, third@));
    text
}

/// Whether the first field of a response is the literal `true`. Every other
/// text, `false` among them, reads as failure.
pub fn is_success(first: &[u8]) -> (success: bool)
    ensures
        success == (first@ == true_text()),
{
    let success = first.len() == 4 && first[0] == 0x74 && first[1] == 0x72 && first[2] == 0x75
        && first[3] == 0x65;
    assert(success ==> first@ =~= true_text());
    success
}

/// Whether a field is read without asking the decoder.
pub fn field_is_blank(field: Option<&[u8]>) -> (blank: bool)
    ensures
        blank == is_blank(
            match field {
                Some(text) => Some(text@),
                None => None,
            },
        ),
{
    match field {
        None => true,
        Some(text) => {
            let blank = text.len() == 0 || (text.len() == 1 && text[0] == ABSENT);
            assert(blank ==> text@.len() == 0 || text@ =~= seq![ABSENT]);
            blank
        },
    }
}

/// Reads the document of one field of a response.
pub fn read_field(field: Option<&[u8]>) -> (doc: Option<Vec<u8>>)
    ensures
        match doc {
            Some(bytes) => field_document(
                match field {
                    Some(text) => Some(text@),
                    None => None,
                },
            ) == Some(bytes@),
            None => field_document(
                match field {
                    Some(text) => Some(text@),
                    None => None,
                },
            ) is None,
        },
{
    if field_is_blank(field) {
        return None;
    }
    match field {
        None => None,
        Some(text) => match decode_base64(text) {
            Ok(bytes) => Some(bytes),
            Err(_) => None,
        },
    }
}

/// Puts a response together from its flag and the values that were read from
/// its documents. What a response holds beside a flag other than `true` is
/// not to be trusted, and is left out.
pub fn assemble<R>(success: bool, block: Option<ControlBlock>, content: Option<R>) -> (resp: Resp<R>)
    ensures
        resp.success == success,
        resp.block == if success {
            block
        } else {
            None
        },
        resp.content == if success {
            content
        } else {
            None
        },
{
    if success {
        Resp { success, block, content }
    } else {
        Resp { success, block: None, content: None }
    }
}

/// Decodes one response.
///
/// The flag is true for the literal `true` alone. Each document is absent
/// where its field is missing, empty, `.` or refused by the base64 decoder, so
/// one bad field never spoils the other.
pub fn split_resp(resp: &str) -> (raw: RawResp)
    ensures
        raw@ == resp_of(resp.spec_bytes()),
{
    let (first, second, third) = split_fields(resp.as_bytes());
    RawResp { success: is_success(first), block: read_field(second), content: read_field(third) }
}

/// The text of a base64 field holds no separator and is never the lone `.`.
proof fn lemma_base64_field(doc: Seq<u8>, text: Seq<u8>)
    requires
        text.len() == base64_len(doc.len()),
        forall|i: int| 0 <= i < text.len() ==> is_base64_byte(#[trigger] text[i]),
    ensures
        is_token(text),
        text != seq![ABSENT],
        text.len() == 0 <==> doc.len() == 0,
{
    if text == seq![ABSENT] {
        assert(text.len() == 1);
    }
}

/// Encodes one request as `<method> <session> <payload>`.
///
/// The session and the payload are JSON documents. Each is written in base64;
/// an absent session is written `.`, an absent payload as the empty field.
/// Where the method holds no separator, decoding the text gives the documents
/// back, an absent one as absent, and reads the method `true` as success.
pub fn make_req(method: &str, block: Option<&[u8]>, content: Option<&[u8]>) -> (text: Vec<u8>)
    requires
        block matches Some(doc) ==> base64_len(doc@.len()) <= isize::MAX,
        content matches Some(doc) ==> base64_len(doc@.len()) <= isize::MAX,
    ensures
        text@ == frame_text(
            method.spec_bytes(),
            session_field(
                match block {
                    Some(doc) => Some(doc@),
                    None => None,
                },
            ),
            payload_field(
                match content {
                    Some(doc) => Some(doc@),
                    None => None,
                },
            ),
        ),
        is_token(method.spec_bytes()) ==> resp_of(text@) == (RawRespView {
            success: method.spec_bytes() == true_text(),
            block: present(
                match block {
                    Some(doc) => Some(doc@),
                    None => None,
                },
            ),
            content: present(
                match content {
                    Some(doc) => Some(doc@),
                    None => None,
                },
            ),
        }),
{
    let session: Vec<u8> = match block {
        Some(doc) => {
            let field = encode_base64(doc);
            proof {
                lemma_base64_field(doc@, field@);
            }
            field
        },
        None => {
            let mut field: Vec<u8> = Vec::new();
            field.push(ABSENT);
            assert(field@ =~= seq![ABSENT]);
            field
        },
    };
    let payload: Vec<u8> = match content {
        Some(doc) => {
            let field = encode_base64(doc);
            proof {
                lemma_base64_field(doc@, field@);
            }
            field
        },
        None => Vec::new(),
    };
    let text = join_fields(method.as_bytes(), session.as_slice(), payload.as_slice());
    proof {
        if is_token(method.spec_bytes()) {
            lemma_fields_of_frame(method.spec_bytes(), session@, payload@);
        }
    }
    text
}

} // verus!
