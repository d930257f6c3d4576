//! JSON documents: a mathematical model of what a `json::JsonValue` holds, and
//! the calls into the `json` crate that parse, read, build and print such
//! values.
//!
//! Nothing in this module is proved about the `json` crate itself. Each call
//! into it stands in a small function of its own whose contract is taken on
//! trust; the contracts speak of [`json_model`], the document a value holds.

use crate::scan::uncountable;
use crate::text::nul_free;
use vstd::prelude::*;
use vstd::utf8::encode_utf8;

verus! {

/// A decimal number: `mantissa * 10^exponent`, negated unless `positive`.
pub struct Decimal {
    pub positive: bool,
    pub mantissa: nat,
    pub exponent: int,
}

/// What a JSON value holds.
#[verifier::ext_equal]
pub enum Json {
    Null,
    Bool(bool),
    /// A number; `None` for the value that is not a number.
    Number(Option<Decimal>),
    /// A string, whichever way the value stores it.
    Text(Seq<char>),
    Array(Seq<Json>),
    /// An object: its keys, each once and in the order in which the object
    /// got them, and the value under each key.
    Object { keys: Seq<Seq<char>>, values: Map<Seq<char>, Json> },
}

impl Json {
    /// The object without members.
    pub open spec fn empty_object() -> Json {
        Json::Object { keys: Seq::empty(), values: Map::empty() }
    }

    /// The non-negative whole number `n`.
    pub open spec fn whole(n: nat) -> Json {
        Json::Number(Some(Decimal { positive: true, mantissa: n, exponent: 0 }))
    }

    /// The value under `key`; `Null` where `self` is no object or has no
    /// such key.
    pub open spec fn member(self, key: Seq<char>) -> Json {
        match self {
            Json::Object { values, .. } => if values.dom().contains(key) {
                values[key]
            } else {
                Json::Null
            },
            _ => Json::Null,
        }
    }

    /// `self` after `value` was put under `key`: a key that the object has
    /// keeps its place and gets the new value, a new key goes to the end.
    /// Anything but an object stays as it is.
    pub open spec fn with_member(self, key: Seq<char>, value: Json) -> Json {
        match self {
            Json::Object { keys, values } => Json::Object {
                keys: if values.dom().contains(key) {
                    keys
                } else {
                    keys.push(key)
                },
                values: values.insert(key, value),
            },
            _ => self,
        }
    }

    /// The text that `self` is, or `fallback` where it is not text.
    pub open spec fn text_or(self, fallback: Seq<char>) -> Seq<char> {
        match self {
            Json::Text(text) => text,
            _ => fallback,
        }
    }
}

/// Makes `json::JsonValue` known to the verifier, as a type whose values it
/// cannot look into.
#[verifier::external_type_specification]
#[verifier::external_body]
pub struct ExJsonValue(json::JsonValue);

/// The document that a value of the `json` crate holds: `Null`, a boolean
/// or a string as it is (a short string and a long one alike); a number
/// with its sign, mantissa and exponent; an array with the documents of its
/// items in order; an object with its keys in the order in which it stores
/// them, and the document of the value under each key.
pub uninterp spec fn json_model(value: json::JsonValue) -> Json;

/// What `json::parse` makes of a text: the document it reads, or the
/// description of the error it reports.
pub uninterp spec fn json_parse(text: Seq<char>) -> Result<Json, Seq<char>>;

/// The text that `JsonValue::dump` writes for a value that holds `doc`.
pub uninterp spec fn json_dump(doc: Json) -> Seq<char>;

/// How the parser describes that a text ended before its value did.
pub const END_OF_INPUT: &'static str = "Unexpected end of JSON";

/// Whether the parser read a text to its end: it either accepted the text
/// or missed something after its last byte.
pub open spec fn ran_to_the_end(outcome: Result<Json, Seq<char>>) -> bool {
    match outcome {
        Ok(_) => true,
        Err(reason) => reason == END_OF_INPUT@,
    }
}

/// `json::parse`. Trusted: the outcome depends on the text alone; an error
/// is handed on as the text that its `Display` impl writes.
///
/// The parser reads a text from its beginning and returns at the first
/// thing that is wrong. Unless that is the end of the text, it has not
/// looked beyond the character that it names, so every text that begins
/// with this one is rejected in the same words.
///
/// The parser counts the digits of a fraction down in an `i16` that it does
/// not guard, so a text with a number whose fraction cannot be counted is
/// not to be handed to it; `uncountable` finds such a number by the
/// parser's own rules for strings and numbers.
#[verifier::external_body]
pub(crate) fn parse_json(text: &str) -> (r: Result<json::JsonValue, String>)
    requires
        uncountable(encode_utf8(text@)) is None,
    ensures
        (match r {
            Ok(value) => json_parse(text@) == Ok::<Json, Seq<char>>(json_model(value)),
            Err(reason) => json_parse(text@) == Err::<Json, Seq<char>>(reason@),
        }),
        (r matches Err(reason) ==> reason@ != END_OF_INPUT@ ==> forall|rest: Seq<char>|
            #[trigger] json_parse(text@ + rest) == Err::<Json, Seq<char>>(reason@)),
{
    match json::parse(text) {
        Ok(value) => Ok(value),
        Err(error) => Err(error.to_string()),
    }
}

/// `JsonValue::dump`. Trusted: the text written depends on the document
/// alone; it is never empty; and it holds no NUL character: strings and
/// keys are written with every control character escaped, and the rest is
/// punctuation, digits and the words `null`, `true` and `false`.
#[verifier::external_body]
pub(crate) fn dump_json(value: &json::JsonValue) -> (r: String)
    ensures
        r@ == json_dump(json_model(*value)),
        r@.len() > 0,
        nul_free(r@),
{
    value.dump()
}

/// `JsonValue::is_null`. Trusted: true for the `Null` variant only.
#[verifier::external_body]
pub(crate) fn is_null(value: &json::JsonValue) -> (r: bool)
    ensures
        r == (json_model(*value) is Null),
{
    value.is_null()
}

/// `JsonValue::as_str`. Trusted: the text of a string value, short or long,
/// and `None` for every other variant.
#[verifier::external_body]
pub(crate) fn text_of(value: &json::JsonValue) -> (r: Option<&str>)
    ensures
        (match r {
            Some(text) => json_model(*value) == Json::Text(text@),
            None => !(json_model(*value) is Text),
        }),
{
    value.as_str()
}

/// Indexing a `JsonValue` by a string key. Trusted: the value stored under
/// the key of an object, and a `Null` for a missing key or for anything that
/// is no object.
#[verifier::external_body]
pub(crate) fn member_of<'a>(value: &'a json::JsonValue, key: &str) -> (r: &'a json::JsonValue)
    ensures
        json_model(*r) == json_model(*value).member(key@),
{
    &value[key]
}

/// `JsonValue::new_object`. Trusted: an object without members.
#[verifier::external_body]
pub(crate) fn new_object() -> (r: json::JsonValue)
    ensures
        json_model(r) == Json::empty_object(),
{
    json::JsonValue::new_object()
}

/// `JsonValue::insert`. Trusted: on an object, the value replaces the one
/// under an existing key, or is appended under a new key; anything else is
/// left untouched (the error that the call then returns is dropped).
#[verifier::external_body]
pub(crate) fn put_member(object: &mut json::JsonValue, key: &str, value: json::JsonValue)
    ensures
        json_model(*final(object)) == json_model(*old(object)).with_member(
            key@,
            json_model(value),
        ),
{
    let _ = object.insert(key, value);
}

/// `JsonValue::from` on a string slice. Trusted: a string value with the
/// same text.
#[verifier::external_body]
pub(crate) fn text_value(text: &str) -> (r: json::JsonValue)
    ensures
        json_model(r) == Json::Text(text@),
{
    json::JsonValue::from(text)
}

/// `JsonValue::from` on a `u16`. Trusted: the positive number with that
/// mantissa and exponent zero.
#[verifier::external_body]
pub(crate) fn number_value(n: u16) -> (r: json::JsonValue)
    ensures
        json_model(r) == Json::whole(n as nat),
{
    json::JsonValue::from(n)
}

/// The text under `key` in `value`, or `fallback` where `value` is no
/// object, has no such key, or holds something other than text there.
pub fn text_or(value: &json::JsonValue, key: &str, fallback: &str) -> (r: String)
    ensures
        r@ == json_model(*value).member(key@).text_or(fallback@),
{
    match text_of(member_of(value, key)) {
        Some(text) => text.to_owned(),
        None => fallback.to_owned(),
    }
}

} // verus!
