use otoroshi_wasm_plugin::context::{
    context_of, decode, decode_text, DecodeError, RequestContext, PLACEHOLDER,
};
use otoroshi_wasm_plugin::document::text_or;
use otoroshi_wasm_plugin::context::UNCOUNTABLE;
use otoroshi_wasm_plugin::scan::first_uncountable;

fn request(method: &str, path: &str, host: &str) -> RequestContext {
    RequestContext::Request {
        method: method.to_string(),
        path: path.to_string(),
        host: host.to_string(),
    }
}

#[test]
fn decode_reads_method_path_and_host() {
    let ctx = decode(b"{\"method\":\"GET\",\"path\":\"/\",\"headers\":{\"Host\":\"example.com\"}}\0");
    assert_eq!(ctx, Ok(request("GET", "/", "example.com")));
}

#[test]
fn decode_defaults_each_field_on_its_own() {
    assert_eq!(decode(b"{}\0"), Ok(request("--", "--", "--")));
    assert_eq!(decode(b"{\"method\":\"PUT\"}\0"), Ok(request("PUT", "--", "--")));
    assert_eq!(decode(b"{\"path\":\"/a\"}\0"), Ok(request("--", "/a", "--")));
    assert_eq!(
        decode(b"{\"headers\":{\"Host\":\"h\"}}\0"),
        Ok(request("--", "--", "h"))
    );
    assert_eq!(
        decode(b"{\"method\":1,\"path\":null,\"headers\":[\"Host\"]}\0"),
        Ok(request("--", "--", "--"))
    );
    assert_eq!(
        decode(b"{\"method\":\"\",\"path\":\"\",\"headers\":{\"Host\":\"\"}}\0"),
        Ok(request("", "", ""))
    );
}

#[test]
fn decode_stops_at_err() {
    assert_eq!(
        decode(b"{\"err\":\"boom\",\"err_desc\":\"bad thing\",\"method\":\"GET\"}\0"),
        Ok(RequestContext::Upstream { err: "boom".to_string(), err_desc: "bad thing".to_string() })
    );
    assert_eq!(
        decode(b"{\"err\":false}\0"),
        Ok(RequestContext::Upstream { err: "--".to_string(), err_desc: "--".to_string() })
    );
    assert_eq!(
        decode(b"{\"err\":\"\"}\0"),
        Ok(RequestContext::Upstream { err: "".to_string(), err_desc: "--".to_string() })
    );
}

#[test]
fn decode_takes_the_last_of_repeated_members() {
    assert_eq!(
        decode(b"{\"method\":\"GET\",\"method\":\"POST\"}\0"),
        Ok(request("POST", "--", "--"))
    );
}

#[test]
fn decode_reports_invalid_encoding() {
    assert_eq!(
        decode(&[0xc3, 0x28, 0x00]),
        Err(DecodeError::InvalidEncoding(
            "invalid utf-8 sequence of 1 bytes from index 0".to_string()
        ))
    );
    assert_eq!(
        decode(&[0xed, 0xa0, 0x80]),
        Err(DecodeError::InvalidEncoding(
            "invalid utf-8 sequence of 1 bytes from index 0".to_string()
        ))
    );
    assert_eq!(
        decode(&[0x61, 0xf0, 0x9f]),
        Err(DecodeError::InvalidEncoding(
            "incomplete utf-8 byte sequence from index 1".to_string()
        ))
    );
}

#[test]
fn decode_reports_malformed_object() {
    assert_eq!(
        decode(b"{\"method\"\0"),
        Err(DecodeError::MalformedObject("Unexpected end of JSON".to_string()))
    );
    assert_eq!(
        decode(b"{\"method\":\"GET\"}}\0"),
        Err(DecodeError::MalformedObject("Unexpected character: } at (1:17)".to_string()))
    );
    assert_eq!(
        decode("{\"a\":\u{e9}}".as_bytes()),
        Err(DecodeError::MalformedObject("Unexpected character: \u{e9} at (1:6)".to_string()))
    );
}

#[test]
fn decode_ignores_what_follows_the_zero_byte() {
    assert_eq!(decode(b"{}\0{"), Ok(request("--", "--", "--")));
    assert_eq!(decode(b"{}\0\xff"), Ok(request("--", "--", "--")));
}

#[test]
fn decode_accepts_text_beyond_ascii() {
    assert_eq!(
        decode("{\"method\":\"GET\",\"path\":\"/caf\u{e9}\",\"headers\":{\"Host\":\"\u{4f8b}\"}}\0".as_bytes()),
        Ok(request("GET", "/caf\u{e9}", "\u{4f8b}"))
    );
}

#[test]
fn context_of_reads_a_parsed_document() {
    let doc = json::parse("{\"method\":\"GET\",\"path\":\"/\",\"headers\":{\"Host\":\"example.com\"}}").unwrap();
    assert_eq!(context_of(&doc), request("GET", "/", "example.com"));
    let doc = json::parse("{\"err\":\"boom\",\"err_desc\":\"bad thing\"}").unwrap();
    assert_eq!(
        context_of(&doc),
        RequestContext::Upstream { err: "boom".to_string(), err_desc: "bad thing".to_string() }
    );
    assert_eq!(context_of(&json::JsonValue::Null), request("--", "--", "--"));
    assert_eq!(context_of(&json::JsonValue::new_array()), request("--", "--", "--"));
}

#[test]
fn context_of_reads_long_and_short_strings_alike() {
    let long = "h".repeat(100);
    let mut headers = json::JsonValue::new_object();
    headers.insert("Host", long.as_str()).unwrap();
    let mut doc = json::JsonValue::new_object();
    doc.insert("method", "GET").unwrap();
    doc.insert("path", "/").unwrap();
    doc.insert("headers", headers).unwrap();
    assert_eq!(context_of(&doc), request("GET", "/", &long));
}

#[test]
fn text_or_falls_back() {
    let doc = json::parse("{\"a\":\"x\",\"b\":1,\"c\":null,\"d\":{\"a\":\"y\"}}").unwrap();
    assert_eq!(text_or(&doc, "a", "--"), "x");
    assert_eq!(text_or(&doc, "b", "--"), "--");
    assert_eq!(text_or(&doc, "c", "--"), "--");
    assert_eq!(text_or(&doc, "d", "--"), "--");
    assert_eq!(text_or(&doc, "e", "none"), "none");
    assert_eq!(text_or(&doc["d"], "a", "--"), "y");
    assert_eq!(text_or(&doc["a"], "a", "--"), "--");
}

#[test]
fn decode_text_parses_and_reads() {
    assert_eq!(
        decode_text("{\"method\":\"GET\",\"path\":\"/\",\"headers\":{\"Host\":\"example.com\"}}"),
        Ok(request("GET", "/", "example.com"))
    );
    assert_eq!(
        decode_text("  {\"err\" : \"boom\"}  "),
        Ok(RequestContext::Upstream { err: "boom".to_string(), err_desc: "--".to_string() })
    );
    assert_eq!(
        decode_text("{\"method\":\"GET\"}\0"),
        Err(DecodeError::MalformedObject("Unexpected character: \0 at (1:17)".to_string()))
    );
    assert_eq!(
        decode_text(""),
        Err(DecodeError::MalformedObject("Unexpected end of JSON".to_string()))
    );
}

#[test]
fn placeholder_is_two_dashes() {
    assert_eq!(PLACEHOLDER, "--");
    assert_eq!(decode(b"[]"), Ok(request(PLACEHOLDER, PLACEHOLDER, PLACEHOLDER)));
}

fn fraction(before: &str, digit: &str, digits: usize, after: &str) -> String {
    format!("{}.{}{}", before, digit.repeat(digits), after)
}

fn refusal() -> Result<RequestContext, DecodeError> {
    Err(DecodeError::MalformedObject("Fraction too long to count".to_string()))
}

#[test]
fn first_uncountable_counts_as_the_parser_counts() {
    assert_eq!(UNCOUNTABLE, "Fraction too long to count");
    assert_eq!(first_uncountable(b""), None);
    assert_eq!(first_uncountable(b"0.5"), None);
    assert_eq!(first_uncountable(fraction("0", "0", 32768, "").as_bytes()), None);
    assert_eq!(first_uncountable(fraction("0", "0", 32769, "").as_bytes()), Some(0));
    assert_eq!(first_uncountable(fraction("-0", "0", 32769, "").as_bytes()), Some(1));
    assert_eq!(first_uncountable(fraction("[1, 0", "0", 32769, "]").as_bytes()), Some(4));
    assert_eq!(first_uncountable(fraction("{\"n\": 0", "0", 40000, "e5}").as_bytes()), Some(6));
    assert_eq!(first_uncountable(fraction("[1, 20", "0", 32769, "]").as_bytes()), None);
    assert_eq!(first_uncountable(fraction("{\"n\": 7", "0", 40000, "e5}").as_bytes()), None);
    let late = format!("{}123456789", fraction("0", "0", 32760, ""));
    assert_eq!(first_uncountable(late.as_bytes()), Some(0));
    let short = format!("{}12345678", fraction("0", "0", 32760, ""));
    assert_eq!(first_uncountable(short.as_bytes()), None);
}

#[test]
fn first_uncountable_stops_counting_when_the_mantissa_is_full() {
    assert_eq!(first_uncountable(fraction("0", "7", 100000, "").as_bytes()), None);
    assert_eq!(first_uncountable(fraction("1", "9", 32769, "").as_bytes()), None);
    let filled = format!("{}{}", fraction("0", "1", 19, ""), "0".repeat(40000));
    assert_eq!(first_uncountable(filled.as_bytes()), None);
    let large = fraction(&"9".repeat(40), "0", 40000, "");
    assert_eq!(first_uncountable(large.as_bytes()), None);
}

#[test]
fn first_uncountable_passes_over_strings() {
    assert_eq!(first_uncountable(fraction("\"0", "0", 40000, "\"").as_bytes()), None);
    assert_eq!(first_uncountable(fraction("{\"a\":\"x\\\"0", "0", 40000, "\"}").as_bytes()), None);
    let after = format!("\"a\\\\\",{}", fraction("0", "0", 32769, ""));
    assert_eq!(first_uncountable(after.as_bytes()), Some(6));
    assert_eq!(first_uncountable(fraction("\"caf\u{e9}\" 0", "0", 32769, "").as_bytes()), Some(8));
}

#[test]
fn first_uncountable_knows_where_a_number_ends() {
    assert_eq!(first_uncountable(fraction("1e5", "0", 40000, "").as_bytes()), None);
    assert_eq!(first_uncountable(fraction("1.5", "0", 40000, "").as_bytes()), None);
    assert_eq!(first_uncountable(fraction("", "0", 40000, "").as_bytes()), None);
    assert_eq!(first_uncountable(fraction("00", "0", 32769, "").as_bytes()), Some(1));
    assert_eq!(first_uncountable("7".repeat(50000).as_bytes()), None);
}

#[test]
fn decode_text_reads_digits_in_a_string() {
    let host = fraction("a", "0", 32768, "");
    let text = format!("{{\"headers\":{{\"Host\":\"{}\"}},\"method\":\"GET\",\"path\":\"/\"}}", host);
    assert_eq!(decode_text(&text), Ok(request("GET", "/", &host)));
    let host = fraction("0", "0", 50000, "");
    let text = format!("{{\"headers\":{{\"Host\":\"{}\"}},\"method\":\"GET\",\"path\":\"/\"}}", host);
    assert_eq!(decode_text(&text), Ok(request("GET", "/", &host)));
}

#[test]
fn decode_text_reads_every_number_that_can_be_counted() {
    assert_eq!(
        decode_text(&fraction("{\"method\":\"GET\",\"n\":0", "7", 32768, "}")),
        Ok(request("GET", "--", "--"))
    );
    assert_eq!(
        decode_text(&fraction("{\"method\":\"GET\",\"n\":0", "7", 100000, "}")),
        Ok(request("GET", "--", "--"))
    );
    assert_eq!(
        decode_text(&fraction("{\"method\":\"GET\",\"n\":0", "0", 32768, "}")),
        Ok(request("GET", "--", "--"))
    );
    assert_eq!(
        decode_text(&fraction("{\"method\":\"GET\",\"n\":-0", "0", 32768, "e-9}")),
        Ok(request("GET", "--", "--"))
    );
    assert_eq!(
        decode_text(&fraction("{\"err\":\"boom\",\"n\":[0", "0", 32768, "]}")),
        Ok(RequestContext::Upstream { err: "boom".to_string(), err_desc: "--".to_string() })
    );
    assert_eq!(
        decode_text(&fraction("{\"err\":\"boom\",\"n\":5", "0", 32769, "}")),
        Ok(RequestContext::Upstream { err: "boom".to_string(), err_desc: "--".to_string() })
    );
}

#[test]
fn decode_text_refuses_a_number_that_cannot_be_counted() {
    assert_eq!(decode_text(&fraction("{\"n\":0", "0", 32769, "}")), refusal());
    assert_eq!(decode_text(&fraction("0", "0", 32769, "")), refusal());
    assert_eq!(decode_text(&fraction("  [1, -0", "0", 40000, "]")), refusal());
    assert_eq!(decode_text(&fraction("{\"n\":0", "0", 32769, "")), refusal());
    assert_eq!(decode_text(&fraction("{\"err\":\"boom\",\"n\":0", "0", 32769, "}")), refusal());
}

#[test]
fn decode_text_reports_what_the_parser_finds_before_such_a_number() {
    assert_eq!(
        decode_text(&fraction("{\"a\" 0", "0", 32769, "}")),
        Err(DecodeError::MalformedObject("Unexpected character: 0 at (1:6)".to_string()))
    );
    assert_eq!(
        decode_text(&fraction("x 0", "0", 32769, "")),
        Err(DecodeError::MalformedObject("Unexpected character: x at (1:1)".to_string()))
    );
    assert_eq!(
        decode_text(&fraction("1 0", "0", 32769, "")),
        Err(DecodeError::MalformedObject("Unexpected character: 0 at (1:3)".to_string()))
    );
    assert_eq!(
        decode_text(&fraction("[1,\n tru 0", "0", 32769, "]")),
        Err(DecodeError::MalformedObject("Unexpected character:   at (2:5)".to_string()))
    );
    assert_eq!(
        decode_text(&fraction("00", "0", 32769, "")),
        Err(DecodeError::MalformedObject("Unexpected character: 0 at (1:2)".to_string()))
    );
    assert_eq!(
        decode_text(&fraction("\"caf\u{e9}\" 0", "0", 32769, "")),
        Err(DecodeError::MalformedObject("Unexpected character: 0 at (1:8)".to_string()))
    );
}
