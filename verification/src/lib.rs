//! Request handling for a module that a host process loads and talks to
//! through byte buffers: the request arrives as JSON text, is decoded into a
//! context, routed to a response plan, and the plan is written back as JSON.
//!
//! The library works on plain byte buffers. Handing addresses to the host and
//! taking them back is left to the program that embeds it.

pub mod context;
pub mod document;
pub mod encode;
pub mod route;
pub mod scan;
pub mod text;

use crate::context::{
    context_model, decode, decoded, placeholder, refused, DecodeErrorView, RequestContextView,
    UNCOUNTABLE,
};
use crate::document::{json_dump, json_parse, Json};
use crate::encode::{body_doc, encode, encoded};
use crate::route::{greeting_plan, not_found_plan, plan_for, route, upstream_plan, BodyView};
use crate::text::{
    lemma_encoding_is_not_empty, lemma_encoding_is_zero_free, terminated, utf8_fault, zero_free,
};
use vstd::prelude::*;
use vstd::string::StrSliceExecFns;
use vstd::utf8::{decode_utf8, encode_utf8, valid_utf8};

verus! {

/// The bytes that answer the request in `buffer`: the encoded plan of a
/// request that decodes, and the bare error payload of one that does not.
pub open spec fn response(buffer: Seq<u8>) -> Seq<u8> {
    match decoded(buffer) {
        Ok(ctx) => encoded(plan_for(ctx)),
        Err(e) => encode_utf8(e.payload()),
    }
}

/// Answers the request in `buffer`: decodes it, routes it, and serialises
/// the response. A request that cannot be decoded is answered with the
/// payload of its error, which holds neither a status nor headers. The
/// response is never empty and holds no zero byte.
pub fn handle_http_request(buffer: &[u8]) -> (out: Vec<u8>)
    ensures
        out@ == response(buffer@),
        out@.len() > 0,
        zero_free(out@),
{
    match decode(buffer) {
        Ok(ctx) => encode(&route(ctx)),
        Err(e) => {
            let text = e.payload();
            proof {
                lemma_encoding_is_not_empty(text@);
                lemma_encoding_is_zero_free(text@);
            }
            text.as_str().as_bytes_vec()
        },
    }
}

/// The response to a request that is well-formed UTF-8 and parses is the
/// encoded plan for the context of the parsed document, unless the parser
/// cannot count one of the numbers that it comes to.
pub proof fn lemma_response_of_document(buffer: Seq<u8>)
    requires
        valid_utf8(terminated(buffer)),
    ensures
        !refused(decode_utf8(terminated(buffer))) ==> (json_parse(
            decode_utf8(terminated(buffer)),
        ) matches Ok(doc) ==> response(buffer) == encoded(plan_for(context_model(doc)))),
{
}

/// A request whose `err` member is anything but `null` is relayed as a
/// failure of the host, with status 500, no headers, and the `err` and
/// `err_desc` it carries -- whatever method, path or headers it holds
/// besides.
pub proof fn lemma_upstream_failure_is_relayed(doc: Json)
    requires
        !(doc.member("err"@) is Null),
    ensures
        plan_for(context_model(doc)) == upstream_plan(
            doc.member("err"@).text_or(placeholder()),
            doc.member("err_desc"@).text_or(placeholder()),
        ),
        plan_for(context_model(doc)).status == 500,
        plan_for(context_model(doc)).headers.len() == 0,
{
}

/// A request for `GET /` is greeted in the name of its `Host` header, with
/// status 200.
pub proof fn lemma_get_root_is_greeted(doc: Json, host: Seq<char>)
    requires
        doc.member("err"@) is Null,
        doc.member("method"@) == Json::Text("GET"@),
        doc.member("path"@) == Json::Text("/"@),
        doc.member("headers"@).member("Host"@) == Json::Text(host),
    ensures
        plan_for(context_model(doc)) == greeting_plan(host),
        plan_for(context_model(doc)).status == 200,
        plan_for(context_model(doc)).body == BodyView::Text(
            "<h1>Hello from "@ + host + "!</h1>"@,
        ),
{
}

/// A request that reports no failure and asks for anything but `GET /` is
/// not found: status 404 and the body `{"err":"resource not found"}`. A
/// method or path that is missing or not text counts as `--`.
pub proof fn lemma_other_requests_are_not_found(doc: Json)
    requires
        doc.member("err"@) is Null,
        !(doc.member("method"@).text_or(placeholder()) == "GET"@ && doc.member(
            "path"@,
        ).text_or(placeholder()) == "/"@),
    ensures
        plan_for(context_model(doc)) == not_found_plan(),
        plan_for(context_model(doc)).status == 404,
        body_doc(plan_for(context_model(doc)).body) == (Json::Object {
            keys: seq!["err"@],
            values: map!["err"@ => Json::Text("resource not found"@)],
        }),
{
}

/// Where the request names no host, or names one that is not text, the
/// greeting is made out to `--`.
pub proof fn lemma_missing_host_is_greeted_as_placeholder(doc: Json)
    requires
        doc.member("err"@) is Null,
        doc.member("method"@) == Json::Text("GET"@),
        doc.member("path"@) == Json::Text("/"@),
        !(doc.member("headers"@).member("Host"@) is Text),
    ensures
        context_model(doc) == (RequestContextView::Request {
            method: "GET"@,
            path: "/"@,
            host: "--"@,
        }),
        plan_for(context_model(doc)).body == BodyView::Text("<h1>Hello from --!</h1>"@),
{
    reveal_strlit("<h1>Hello from ");
    reveal_strlit("--");
    reveal_strlit("!</h1>");
    reveal_strlit("<h1>Hello from --!</h1>");
    assert("<h1>Hello from "@ + "--"@ + "!</h1>"@ =~= "<h1>Hello from --!</h1>"@);
}

/// A request that is not well-formed UTF-8 is answered with the payload
/// that names `err_from_ptr` and carries, as a JSON string, the description
/// of what is wrong with its bytes, and with nothing else.
pub proof fn lemma_invalid_encoding_is_reported(buffer: Seq<u8>)
    requires
        !valid_utf8(terminated(buffer)),
    ensures
        response(buffer) == encode_utf8(
            "{ \"err\": \""@ + "err_from_ptr"@ + "\", \"err_desc\": "@ + json_dump(
                Json::Text(utf8_fault(terminated(buffer))),
            ) + " }"@,
        ),
{
}

/// A request that is well-formed UTF-8 but does not parse is answered with
/// the payload that names `err_json_parse` and carries, as a JSON string,
/// the parser's description of what is wrong -- unless what is wrong is a
/// number that the parser came to and cannot count.
pub proof fn lemma_malformed_object_is_reported(buffer: Seq<u8>)
    requires
        valid_utf8(terminated(buffer)),
    ensures
        !refused(decode_utf8(terminated(buffer))) ==> (json_parse(
            decode_utf8(terminated(buffer)),
        ) matches Err(reason) ==> response(buffer) == encode_utf8(
            "{ \"err\": \""@ + "err_json_parse"@ + "\", \"err_desc\": "@ + json_dump(
                Json::Text(reason),
            ) + " }"@,
        )),
{
}

/// A request that brings the parser to a number which it cannot count is
/// answered as malformed, with the library's own description.
pub proof fn lemma_uncountable_number_is_reported(buffer: Seq<u8>)
    requires
        valid_utf8(terminated(buffer)),
    ensures
        refused(decode_utf8(terminated(buffer))) ==> decoded(buffer) == Err::<
            RequestContextView,
            DecodeErrorView,
        >(DecodeErrorView::MalformedObject(UNCOUNTABLE@)),
        refused(decode_utf8(terminated(buffer))) ==> response(buffer) == encode_utf8(
            "{ \"err\": \""@ + "err_json_parse"@ + "\", \"err_desc\": "@ + json_dump(
                Json::Text(UNCOUNTABLE@),
            ) + " }"@,
        ),
{
}

} // verus!
