//! Writing a response: the JSON document that stands for a plan, and the
//! bytes of its text.

use crate::document::{
    dump_json, json_dump, json_model, new_object, number_value, put_member, text_value, Json,
};
use crate::route::{Body, BodyView, ResponsePlan, ResponsePlanView};
use crate::text::{lemma_encoding_is_not_empty, lemma_encoding_is_zero_free, zero_free};
use vstd::prelude::*;
use vstd::string::StrSliceExecFns;
use vstd::utf8::encode_utf8;

verus! {

/// The document of a body: a string for a text, an object for an error.
pub open spec fn body_doc(body: BodyView) -> Json {
    match body {
        BodyView::Text(text) => Json::Text(text),
        BodyView::Error { err } => Json::Object {
            keys: seq!["err"@],
            values: map!["err"@ => Json::Text(err)],
        },
        BodyView::Upstream { err, err_desc } => Json::Object {
            keys: seq!["err"@, "err_desc"@],
            values: map!["err"@ => Json::Text(err), "err_desc"@ => Json::Text(err_desc)],
        },
    }
}

/// The document of a list of headers: an object that got the headers one
/// after the other, each value under its name.
pub open spec fn headers_doc(headers: Seq<(Seq<char>, Seq<char>)>) -> Json
    decreases headers.len(),
{
    if headers.len() == 0 {
        Json::empty_object()
    } else {
        headers_doc(headers.drop_last()).with_member(
            headers.last().0,
            Json::Text(headers.last().1),
        )
    }
}

/// Whether `name` is the name of one of `headers`.
pub open spec fn has_header(headers: Seq<(Seq<char>, Seq<char>)>, name: Seq<char>) -> bool {
    exists|i: int| 0 <= i < headers.len() && headers[i].0 == name
}

/// Headers whose names differ from each other are written in their order,
/// each with its own value.
pub proof fn lemma_headers_keep_their_order(headers: Seq<(Seq<char>, Seq<char>)>)
    requires
        forall|i: int, j: int| 0 <= i < j < headers.len() ==> headers[i].0 != headers[j].0,
    ensures
        headers_doc(headers) is Object,
        headers_doc(headers)->keys == headers.map_values(|h: (Seq<char>, Seq<char>)| h.0),
        forall|name: Seq<char>|
            headers_doc(headers)->values.dom().contains(name) <==> has_header(headers, name),
        forall|i: int|
            0 <= i < headers.len() ==> headers_doc(headers).member(#[trigger] headers[i].0)
                == Json::Text(headers[i].1),
    decreases headers.len(),
{
    let names = headers.map_values(|h: (Seq<char>, Seq<char>)| h.0);
    if headers.len() == 0 {
        assert(headers_doc(headers)->keys =~= names);
    } else {
        let before = headers.drop_last();
        let last = headers.last();
        lemma_headers_keep_their_order(before);
        let doc = headers_doc(before);
        if has_header(before, last.0) {
            let i = choose|i: int| 0 <= i < before.len() && before[i].0 == last.0;
            assert(headers[i].0 == headers[headers.len() - 1].0);
        }
        assert(!doc->values.dom().contains(last.0));
        assert(headers_doc(headers)->keys =~= names);
        assert forall|name: Seq<char>|
            headers_doc(headers)->values.dom().contains(name) <==> has_header(
                headers,
                name,
            ) by {
            if has_header(headers, name) {
                let i = choose|i: int| 0 <= i < headers.len() && headers[i].0 == name;
                if i < before.len() {
                    assert(before[i].0 == name);
                    assert(has_header(before, name));
                }
            }
            if has_header(before, name) {
                let i = choose|i: int| 0 <= i < before.len() && before[i].0 == name;
                assert(headers[i].0 == name);
            }
            if name == last.0 {
                assert(headers[headers.len() - 1].0 == name);
            }
        }
        assert forall|i: int| 0 <= i < headers.len() implies headers_doc(headers).member(
            #[trigger] headers[i].0,
        ) == Json::Text(headers[i].1) by {
            if i < before.len() {
                assert(before[i] == headers[i]);
                assert(doc.member(before[i].0) == Json::Text(before[i].1));
            }
        }
    }
}

/// The document of a plan: an object with the members `status`, `body` and
/// `headers`. The status comes first; a failure relayed from the host has
/// its headers before its body, every other plan its body before its
/// headers.
pub open spec fn plan_doc(plan: ResponsePlanView) -> Json {
    let values = map![
        "status"@ => Json::whole(plan.status as nat),
        "body"@ => body_doc(plan.body),
        "headers"@ => headers_doc(plan.headers),
    ];
    if plan.body is Upstream {
        Json::Object { keys: seq!["status"@, "headers"@, "body"@], values }
    } else {
        Json::Object { keys: seq!["status"@, "body"@, "headers"@], values }
    }
}

/// The bytes that are sent for a plan: the UTF-8 encoding of the text that
/// the `json` crate writes for its document.
pub open spec fn encoded(plan: ResponsePlanView) -> Seq<u8> {
    encode_utf8(json_dump(plan_doc(plan)))
}

/// The names of the members that stand side by side in a response differ
/// from each other.
proof fn lemma_member_names_differ()
    ensures
        "status"@ != "body"@,
        "status"@ != "headers"@,
        "body"@ != "headers"@,
        "err"@ != "err_desc"@,
{
    reveal_strlit("status");
    reveal_strlit("body");
    reveal_strlit("headers");
    reveal_strlit("err");
    reveal_strlit("err_desc");
    assert("status"@.len() == 6 && "body"@.len() == 4 && "headers"@.len() == 7);
    assert("err"@.len() == 3 && "err_desc"@.len() == 8);
}

/// Builds the JSON value of a body.
pub fn body_value(body: &Body) -> (r: json::JsonValue)
    ensures
        json_model(r) == body_doc(body@),
{
    match body {
        Body::Text(text) => text_value(text.as_str()),
        Body::Error { err } => {
            let mut object = new_object();
            put_member(&mut object, "err", text_value(err.as_str()));
            assert(json_model(object) =~= body_doc(body@));
            object
        },
        Body::Upstream { err, err_desc } => {
            let mut object = new_object();
            put_member(&mut object, "err", text_value(err.as_str()));
            put_member(&mut object, "err_desc", text_value(err_desc.as_str()));
            proof {
                lemma_member_names_differ();
                assert(json_model(object) =~= body_doc(body@));
            }
            object
        },
    }
}

/// Builds the JSON value of a list of headers.
pub fn headers_value(headers: &Vec<(String, String)>) -> (r: json::JsonValue)
    ensures
        json_model(r) == headers_doc(headers.deep_view()),
{
    let mut object = new_object();
    let mut i: usize = 0;
    while i < headers.len()
        invariant
            i <= headers.len(),
            json_model(object) == headers_doc(headers.deep_view().take(i as int)),
        decreases headers.len() - i,
    {
        put_member(&mut object, headers[i].0.as_str(), text_value(headers[i].1.as_str()));
        proof {
            let all = headers.deep_view();
            let next = all.take(i + 1);
            assert(next.drop_last() =~= all.take(i as int));
            assert(next.last() == all[i as int]);
        }
        i += 1;
    }
    assert(headers.deep_view().take(i as int) =~= headers.deep_view());
    object
}

/// Builds the JSON value of a plan.
pub fn document_of(plan: &ResponsePlan) -> (r: json::JsonValue)
    ensures
        json_model(r) == plan_doc(plan@),
{
    let mut object = new_object();
    put_member(&mut object, "status", number_value(plan.status));
    match plan.body {
        Body::Upstream { .. } => {
            put_member(&mut object, "headers", headers_value(&plan.headers));
            put_member(&mut object, "body", body_value(&plan.body));
        },
        _ => {
            put_member(&mut object, "body", body_value(&plan.body));
            put_member(&mut object, "headers", headers_value(&plan.headers));
        },
    }
    proof {
        lemma_member_names_differ();
        assert(json_model(object)->values =~= plan_doc(plan@)->values);
        assert(json_model(object)->keys =~= plan_doc(plan@)->keys);
    }
    object
}

/// Serialises a plan. Never fails: every plan has a document, and every
/// document a text. The bytes are never none, and none of them is zero.
pub fn encode(plan: &ResponsePlan) -> (out: Vec<u8>)
    ensures
        out@ == encoded(plan@),
        out@.len() > 0,
        zero_free(out@),
{
    let document = document_of(plan);
    let text = dump_json(&document);
    proof {
        lemma_encoding_is_not_empty(text@);
        lemma_encoding_is_zero_free(text@);
    }
    text.as_str().as_bytes_vec()
}

} // verus!
