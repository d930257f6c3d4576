//! Decoding a request: from the bytes that the host wrote to the context that
//! the router works on.

use crate::document::{
    dump_json, is_null, json_dump, json_model, json_parse, member_of, parse_json,
    ran_to_the_end, text_or, text_value, Json, END_OF_INPUT,
};
use crate::scan::{first_uncountable, uncountable};
use crate::text::{nul_free, same_text, terminated, until_nul, utf8_fault, utf8_text};
use vstd::prelude::*;
use vstd::string::StringExecFns;
use vstd::utf8::{
    decode_utf8, decode_utf8_split, encode_utf8, encode_utf8_decode_utf8,
    encode_utf8_valid_utf8, is_char_boundary, is_char_boundary_iff_is_leading_byte,
    is_char_boundary_iff_not_is_continuation_byte, is_char_boundary_start_end_of_seq,
    valid_utf8, valid_utf8_split,
};

verus! {

/// What a request says, as far as this module reads it.
#[derive(Debug, PartialEq, Eq)]
pub enum RequestContext {
    /// The host reports that handling failed before it reached this module.
    Upstream { err: String, err_desc: String },
    /// A request proper.
    Request { method: String, path: String, host: String },
}

/// The mathematical value of a [`RequestContext`].
pub enum RequestContextView {
    Upstream { err: Seq<char>, err_desc: Seq<char> },
    Request { method: Seq<char>, path: Seq<char>, host: Seq<char> },
}

impl View for RequestContext {
    type V = RequestContextView;

    open spec fn view(&self) -> RequestContextView {
        match self {
            RequestContext::Upstream { err, err_desc } => RequestContextView::Upstream {
                err: err@,
                err_desc: err_desc@,
            },
            RequestContext::Request { method, path, host } => RequestContextView::Request {
                method: method@,
                path: path@,
                host: host@,
            },
        }
    }
}

/// Why a request could not be decoded. Each variant carries the description
/// that the failing step gave.
#[derive(Debug, PartialEq, Eq)]
pub enum DecodeError {
    /// The bytes of the request are not well-formed UTF-8.
    InvalidEncoding(String),
    /// The text of the request is not JSON.
    MalformedObject(String),
}

/// The mathematical value of a [`DecodeError`].
pub enum DecodeErrorView {
    InvalidEncoding(Seq<char>),
    MalformedObject(Seq<char>),
}

impl View for DecodeError {
    type V = DecodeErrorView;

    open spec fn view(&self) -> DecodeErrorView {
        match self {
            DecodeError::InvalidEncoding(reason) => DecodeErrorView::InvalidEncoding(reason@),
            DecodeError::MalformedObject(reason) => DecodeErrorView::MalformedObject(reason@),
        }
    }
}

impl DecodeErrorView {
    /// The name under which the failure is reported.
    pub open spec fn kind(self) -> Seq<char> {
        match self {
            DecodeErrorView::InvalidEncoding(_) => "err_from_ptr"@,
            DecodeErrorView::MalformedObject(_) => "err_json_parse"@,
        }
    }

    /// The description that the failing step gave.
    pub open spec fn description(self) -> Seq<char> {
        match self {
            DecodeErrorView::InvalidEncoding(reason) => reason,
            DecodeErrorView::MalformedObject(reason) => reason,
        }
    }

    /// The text that reports the failure to the host: an object with the
    /// members `err` and `err_desc`, and nothing of a response plan. The
    /// description is written as the `json` crate writes a string, quotes
    /// and escapes included.
    pub open spec fn payload(self) -> Seq<char> {
        "{ \"err\": \""@ + self.kind() + "\", \"err_desc\": "@ + json_dump(
            Json::Text(self.description()),
        ) + " }"@
    }
}

impl DecodeError {
    /// The name under which the failure is reported: `err_from_ptr` for
    /// bytes that are no UTF-8, `err_json_parse` for text that is no JSON.
    pub fn kind(&self) -> (r: &'static str)
        ensures
            r@ == self@.kind(),
            nul_free(r@),
    {
        proof {
            reveal_strlit("err_from_ptr");
            reveal_strlit("err_json_parse");
        }
        match self {
            DecodeError::InvalidEncoding(_) => "err_from_ptr",
            DecodeError::MalformedObject(_) => "err_json_parse",
        }
    }

    /// The description that the failing step gave.
    pub fn description(&self) -> (r: &str)
        ensures
            r@ == self@.description(),
    {
        match self {
            DecodeError::InvalidEncoding(reason) => reason.as_str(),
            DecodeError::MalformedObject(reason) => reason.as_str(),
        }
    }

    /// The text that reports the failure to the host. It holds no NUL
    /// character.
    pub fn payload(&self) -> (r: String)
        ensures
            r@ == self@.payload(),
            r@.len() > 0,
            nul_free(r@),
    {
        let description = dump_json(&text_value(self.description()));
        let mut text = "{ \"err\": \"".to_owned();
        text.append(self.kind());
        text.append("\", \"err_desc\": ");
        text.append(description.as_str());
        text.append(" }");
        proof {
            reveal_strlit("{ \"err\": \"");
            reveal_strlit("\", \"err_desc\": ");
            reveal_strlit(" }");
        }
        text
    }
}

/// What stands in for a field that the request lacks or that is not text.
pub const PLACEHOLDER: &'static str = "--";

/// The placeholder, as a sequence of characters.
pub open spec fn placeholder() -> Seq<char> {
    PLACEHOLDER@
}

/// The context that a parsed request gives.
///
/// Any `err` member other than `null` makes it an upstream failure, whatever
/// else the request holds. Each field is read on its own and falls back to
/// the placeholder.
pub open spec fn context_model(doc: Json) -> RequestContextView {
    if !(doc.member("err"@) is Null) {
        RequestContextView::Upstream {
            err: doc.member("err"@).text_or(placeholder()),
            err_desc: doc.member("err_desc"@).text_or(placeholder()),
        }
    } else {
        RequestContextView::Request {
            method: doc.member("method"@).text_or(placeholder()),
            path: doc.member("path"@).text_or(placeholder()),
            host: doc.member("headers"@).member("Host"@).text_or(placeholder()),
        }
    }
}

/// How a text is described that holds a number which the parser cannot
/// count.
pub const UNCOUNTABLE: &'static str = "Fraction too long to count";

/// What the parser makes of a text, as a context or as a failure to decode.
pub open spec fn parsed(text: Seq<char>) -> Result<RequestContextView, DecodeErrorView> {
    match json_parse(text) {
        Ok(doc) => Ok(context_model(doc)),
        Err(reason) => Err(DecodeErrorView::MalformedObject(reason)),
    }
}

/// The beginning of `text` that ends with the byte at `last`.
pub open spec fn up_to(text: Seq<char>, last: usize) -> Seq<char> {
    decode_utf8(encode_utf8(text).take(last + 1))
}

/// Whether the parser, reading `text`, comes to a number that it cannot
/// count: the text holds such a number, and the parser reads everything up
/// to the first digit of the first of them without finding fault.
pub open spec fn refused(text: Seq<char>) -> bool {
    match uncountable(encode_utf8(text)) {
        Some(start) => ran_to_the_end(json_parse(up_to(text, start))),
        None => false,
    }
}

/// What decoding makes of the text of a request: the context of the
/// document that the text parses to, or the parser's description of what is
/// wrong with it. Only a text that brings the parser to a number which it
/// cannot count is not parsed, and is malformed for that.
pub open spec fn decoded_text(text: Seq<char>) -> Result<RequestContextView, DecodeErrorView> {
    if refused(text) {
        Err(DecodeErrorView::MalformedObject(UNCOUNTABLE@))
    } else {
        parsed(text)
    }
}

/// What decoding makes of a request buffer: the buffer is cut at its first
/// zero byte and read as UTF-8, and the text is decoded.
pub open spec fn decoded(buffer: Seq<u8>) -> Result<RequestContextView, DecodeErrorView> {
    let bytes = terminated(buffer);
    if valid_utf8(bytes) {
        decoded_text(decode_utf8(bytes))
    } else {
        Err(DecodeErrorView::InvalidEncoding(utf8_fault(bytes)))
    }
}

/// Takes the fields of a context from a parsed request. Never fails: what is
/// missing or not text becomes the placeholder.
pub fn context_of(doc: &json::JsonValue) -> (ctx: RequestContext)
    ensures
        ctx@ == context_model(json_model(*doc)),
{
    if !is_null(member_of(doc, "err")) {
        RequestContext::Upstream {
            err: text_or(doc, "err", PLACEHOLDER),
            err_desc: text_or(doc, "err_desc", PLACEHOLDER),
        }
    } else {
        RequestContext::Request {
            method: text_or(doc, "method", PLACEHOLDER),
            path: text_or(doc, "path", PLACEHOLDER),
            host: text_or(member_of(doc, "headers"), "Host", PLACEHOLDER),
        }
    }
}

/// In well-formed UTF-8, the place after an ASCII byte is the boundary of a
/// character, and so is the place of the byte itself.
proof fn lemma_boundary_after_ascii(bytes: Seq<u8>, at: int)
    requires
        valid_utf8(bytes),
        0 <= at < bytes.len(),
        bytes[at] < 0x80,
    ensures
        is_char_boundary(bytes, at),
        is_char_boundary(bytes, at + 1),
{
    is_char_boundary_iff_not_is_continuation_byte(bytes, at);
    if at + 1 == bytes.len() {
        is_char_boundary_start_end_of_seq(bytes);
    } else {
        valid_utf8_split(bytes, at);
        let rest = bytes.subrange(at, bytes.len() as int);
        assert(rest[0] == bytes[at]);
        let after = rest.subrange(1, rest.len() as int);
        assert(valid_utf8(after));
        assert(after[0] == bytes[at + 1]);
        is_char_boundary_iff_is_leading_byte(bytes, at + 1);
    }
}

/// Decodes the text of a request.
///
/// Fails, with `MalformedObject` and the parser's description, exactly when
/// the parser rejects the text. Text that parses always gives a context.
/// The one exception is a text that would bring the parser to a number
/// whose fraction it cannot count: that text is not handed to it, and fails
/// with `MalformedObject` and the description [`UNCOUNTABLE`].
pub fn decode_text(text: &str) -> (r: Result<RequestContext, DecodeError>)
    ensures
        (match r {
            Ok(ctx) => decoded_text(text@) == Ok::<RequestContextView, DecodeErrorView>(ctx@),
            Err(e) => decoded_text(text@) == Err::<RequestContextView, DecodeErrorView>(e@),
        }),
{
    let bytes = text.as_bytes();
    match first_uncountable(bytes) {
        None => match parse_json(text) {
            Ok(doc) => Ok(context_of(&doc)),
            Err(reason) => Err(DecodeError::MalformedObject(reason)),
        },
        Some(start) => {
            // Whether the parser gets as far as this number is for the
            // parser to say: it is asked about the text up to the first digit.
            assert(start < bytes.len());
            proof {
                encode_utf8_valid_utf8(text@);
                lemma_boundary_after_ascii(encode_utf8(text@), start as int);
            }
            let (head, tail) = text.split_at(start + 1);
            proof {
                let bytes = encode_utf8(text@);
                decode_utf8_split(bytes, start + 1);
                encode_utf8_decode_utf8(text@);
                encode_utf8_decode_utf8(head@);
                encode_utf8_decode_utf8(tail@);
                assert(head@ == up_to(text@, start));
                assert(head@ + tail@ =~= text@);
            }
            match parse_json(head) {
                Err(reason) if !same_text(reason.as_str(), END_OF_INPUT) => {
                    assert(json_parse(head@ + tail@) == Err::<Json, Seq<char>>(reason@));
                    Err(DecodeError::MalformedObject(reason))
                },
                _ => Err(DecodeError::MalformedObject(UNCOUNTABLE.to_owned())),
            }
        },
    }
}

/// Decodes the request in `buffer`.
///
/// Fails with `InvalidEncoding` exactly when the bytes before the first zero
/// byte are not well-formed UTF-8, and with `MalformedObject` exactly when
/// they are but [`decode_text`] fails on the text; either error carries the
/// description that the failing step gave.
pub fn decode(buffer: &[u8]) -> (r: Result<RequestContext, DecodeError>)
    ensures
        (match r {
            Ok(ctx) => decoded(buffer@) == Ok::<RequestContextView, DecodeErrorView>(ctx@),
            Err(e) => decoded(buffer@) == Err::<RequestContextView, DecodeErrorView>(e@),
        }),
{
    match utf8_text(until_nul(buffer)) {
        Ok(text) => decode_text(text),
        Err(reason) => Err(DecodeError::InvalidEncoding(reason)),
    }
}

} // verus!
