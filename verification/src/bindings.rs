//! What the library has from outside crates and from the parts of std that vstd does not
//! describe. Each function here makes one outside call; its contract is believed, not proved.
use crate::json::{distinct_keys, entries_tree, values_tree, JsonTree, NumberValue};
use vstd::prelude::*;
use vstd::utf8::{decode_utf8, encode_utf8, valid_utf8};

verus! {

/// `serde_json::Value`: a JSON document. What it holds is named by [`value_tree`].
#[verifier::external_type_specification]
#[verifier::external_body]
pub struct ExValue(serde_json::Value);

/// `serde_json::Number`: a JSON number. What it holds is named by [`number_value`].
#[verifier::external_type_specification]
#[verifier::external_body]
pub struct ExNumber(serde_json::Number);

/// The document that a `serde_json::Value` holds.
pub uninterp spec fn value_tree(value: serde_json::Value) -> JsonTree;

/// The number that a `serde_json::Number` holds.
pub uninterp spec fn number_value(number: serde_json::Number) -> NumberValue;

/// What `serde_json::from_str` makes of a text when it is asked for a `Value`: the document, or
/// the message of the error.
pub uninterp spec fn json_parsed(text: Seq<char>) -> Result<JsonTree, Seq<char>>;

/// What `serde_json::from_reader` makes of some bytes when it is asked for a `Value`: the document,
/// or the message of the error.
pub uninterp spec fn json_read(bytes: Seq<u8>) -> Result<JsonTree, Seq<char>>;

/// The compact text that `serde_json` writes for a document.
pub uninterp spec fn json_text(tree: JsonTree) -> Seq<char>;

/// One level of a JSON document: the parts of an array or of an object are still whole documents.
pub enum Layer {
    Null,
    Bool(bool),
    Number(serde_json::Number),
    String(String),
    Array(Vec<serde_json::Value>),
    Object(Vec<(String, serde_json::Value)>),
}

impl Layer {
    /// The document whose outermost level this is.
    pub open spec fn tree(self) -> JsonTree {
        match self {
            Layer::Null => JsonTree::Null,
            Layer::Bool(b) => JsonTree::Bool(b),
            Layer::Number(n) => JsonTree::Number(number_value(n)),
            Layer::String(s) => JsonTree::String(s@),
            Layer::Array(items) => JsonTree::Array(values_tree(items@)),
            Layer::Object(entries) => JsonTree::Object(entries_tree(entries@)),
        }
    }
}

/// Calls `serde_json::from_str::<Value>`: the result is the document named by [`json_parsed`], or
/// the message of the error that it names.
#[verifier::external_body]
pub(crate) fn value_from_text(text: &str) -> (result: Result<serde_json::Value, String>)
    ensures
        match result {
            Ok(value) => json_parsed(text@) is Ok && json_parsed(text@)->Ok_0 == value_tree(value),
            Err(message) => json_parsed(text@) is Err && json_parsed(text@)->Err_0 == message@,
        },
{
    serde_json::from_str(text).map_err(|error: serde_json::Error| error.to_string())
}

/// Calls `serde_json::from_reader` on bytes in memory: the result is the document named by
/// [`json_read`], or the message of the error that it names.
#[verifier::external_body]
pub(crate) fn value_from_bytes(bytes: &[u8]) -> (result: Result<serde_json::Value, String>)
    ensures
        match result {
            Ok(value) => json_read(bytes@) is Ok && json_read(bytes@)->Ok_0 == value_tree(value),
            Err(message) => json_read(bytes@) is Err && json_read(bytes@)->Err_0 == message@,
        },
{
    serde_json::from_reader(bytes).map_err(|error: serde_json::Error| error.to_string())
}

/// Calls `Display` of `serde_json::Value`, which writes the document without spaces. The text is
/// the one named by [`json_text`]; that of an array begins with `[`. A document without
/// fractional numbers whose arrays and objects are nested at most 127 deep, which is what the
/// parser allows, is read back unchanged, from the text as well as from its bytes.
#[verifier::external_body]
pub(crate) fn value_to_text(value: &serde_json::Value) -> (text: String)
    ensures
        text@ == json_text(value_tree(*value)),
        value_tree(*value) is Array ==> text@.len() > 0 && text@[0] == '[',
        value_tree(*value).has_integers_only() && value_tree(*value).nests_within(127)
            ==> json_parsed(text@) is Ok && json_parsed(text@)->Ok_0 == value_tree(*value)
            && json_read(encode_utf8(text@)) is Ok && json_read(encode_utf8(text@))->Ok_0
            == value_tree(*value),
{
    value.to_string()
}

/// Takes the outermost level of a `serde_json::Value` apart, variant by variant. The keys of an
/// object are distinct, since `serde_json::Map` holds each key once.
#[verifier::external_body]
pub(crate) fn open_value(value: serde_json::Value) -> (layer: Layer)
    ensures
        layer.tree() == value_tree(value),
        layer matches Layer::Object(entries) ==> distinct_keys(entries@),
{
    match value {
        serde_json::Value::Null => Layer::Null,
        serde_json::Value::Bool(b) => Layer::Bool(b),
        serde_json::Value::Number(n) => Layer::Number(n),
        serde_json::Value::String(s) => Layer::String(s),
        serde_json::Value::Array(items) => Layer::Array(items),
        serde_json::Value::Object(entries) => Layer::Object(entries.into_iter().collect()),
    }
}

/// Puts one level of a document together to a `serde_json::Value`, variant by variant. An object
/// has no entries yet.
#[verifier::external_body]
pub(crate) fn close_value(layer: Layer) -> (value: serde_json::Value)
    requires
        layer matches Layer::Object(entries) ==> entries@.len() == 0,
    ensures
        value_tree(value) == layer.tree(),
{
    match layer {
        Layer::Null => serde_json::Value::Null,
        Layer::Bool(b) => serde_json::Value::Bool(b),
        Layer::Number(n) => serde_json::Value::Number(n),
        Layer::String(s) => serde_json::Value::String(s),
        Layer::Array(items) => serde_json::Value::Array(items),
        Layer::Object(_) => serde_json::Value::Object(serde_json::Map::new()),
    }
}

/// Calls `IndexMut` of `serde_json::Value` with a key and assigns to what it gives: an object has
/// then this entry under the key, whether it had one before or not, and its others as before. On
/// what is no object the call can panic.
#[verifier::external_body]
pub(crate) fn set_entry(value: &mut serde_json::Value, key: &str, part: serde_json::Value)
    requires
        value_tree(*old(value)) is Object,
    ensures
        value_tree(*final(value)) == JsonTree::Object(
            value_tree(*old(value))->Object_0.insert(key@, value_tree(part)),
        ),
{
    value[key] = part;
}

/// `serde_json::Number::clone` keeps the number.
pub assume_specification[ <serde_json::Number as Clone>::clone ](
    number: &serde_json::Number,
) -> (result: serde_json::Number)
    ensures
        number_value(result) == number_value(*number),
;

/// `serde_json::Number::as_u64`: the number, if it is an integer in the range of `u64`.
pub assume_specification[ serde_json::Number::as_u64 ](number: &serde_json::Number) -> (result:
    Option<u64>)
    ensures
        result == number_value(*number).as_u64(),
;

/// `serde_json::Number::as_i64`: the number, if it is an integer in the range of `i64`.
pub assume_specification[ serde_json::Number::as_i64 ](number: &serde_json::Number) -> (result:
    Option<i64>)
    ensures
        result == number_value(*number).as_i64(),
;

/// Calls `From<u64>` of `serde_json::Number`, which holds that integer.
#[verifier::external_body]
pub(crate) fn number_from_u64(n: u64) -> (number: serde_json::Number)
    ensures
        number_value(number) == NumberValue::Int(n as int),
{
    serde_json::Number::from(n)
}

/// The message of the error with which `std::str::from_utf8` refuses some bytes.
pub uninterp spec fn utf8_error(bytes: Seq<u8>) -> Seq<char>;

/// Calls `std::str::from_utf8`: the text that the bytes encode, or, where they are not UTF-8, the
/// message of the error.
#[verifier::external_body]
pub(crate) fn utf8_text(bytes: &[u8]) -> (result: Result<&str, String>)
    ensures
        match result {
            Ok(text) => valid_utf8(bytes@) && text@ == decode_utf8(bytes@),
            Err(message) => !valid_utf8(bytes@) && message@ == utf8_error(bytes@),
        },
{
    std::str::from_utf8(bytes).map_err(|error| error.to_string())
}

/// What `DateTime<Utc>` of `chrono` reads from a text: the seconds since 1970 and the nanoseconds
/// within the second, or the message of the error.
pub uninterp spec fn time_parsed(text: Seq<char>) -> Result<(i64, u32), Seq<char>>;

/// The RFC 3339 text that `chrono` writes for a time given in seconds since 1970 and nanoseconds;
/// none where it has no such time.
pub uninterp spec fn time_text(secs: i64, nanos: u32) -> Option<Seq<char>>;

/// Calls `FromStr` of `chrono::DateTime<Utc>`. The result is the time named by [`time_parsed`], or
/// the message of the error that it names; a time that was read can be written.
#[verifier::external_body]
pub(crate) fn parse_time(text: &str) -> (result: Result<(i64, u32), String>)
    ensures
        match result {
            Ok(time) => time_parsed(text@) is Ok && time_parsed(text@)->Ok_0 == time && time_text(
                time.0,
                time.1,
            ) is Some,
            Err(message) => time_parsed(text@) is Err && time_parsed(text@)->Err_0 == message@,
        },
{
    match text.parse::<chrono::DateTime<chrono::Utc>>() {
        Ok(time) => Ok((time.timestamp(), time.timestamp_subsec_nanos())),
        Err(error) => Err(error.to_string()),
    }
}

/// The seconds since 1970 are in one of the years of RFC 3339, which are those from 0 to 9999.
pub open spec fn is_rfc3339_year(secs: i64) -> bool {
    -62_167_219_200 <= secs <= 253_402_300_799
}

/// The nanoseconds are those of a second. A billion or more make a leap second, which comes behind
/// the last second of a minute.
pub open spec fn is_within_second(secs: i64, nanos: u32) -> bool {
    nanos < 1_000_000_000 || (secs % 60 == 59 && nanos < 2_000_000_000)
}

/// Calls `to_rfc3339` on the `chrono::DateTime<Utc>` that `from_timestamp` makes, where it makes
/// one. The result is the text named by [`time_text`]. It makes none where the nanoseconds are not
/// those of a second. Every other time in the years of RFC 3339 has a text, leap seconds too, and
/// that text is read back as the same time.
#[verifier::external_body]
pub(crate) fn format_time(secs: i64, nanos: u32) -> (result: Option<String>)
    ensures
        match result {
            Some(text) => time_text(secs, nanos) == Some(text@),
            None => time_text(secs, nanos) is None,
        },
        result is Some ==> is_within_second(secs, nanos),
        is_rfc3339_year(secs) && is_within_second(secs, nanos) ==> match result {
            Some(text) => time_parsed(text@) is Ok && time_parsed(text@)->Ok_0 == (secs, nanos),
            None => false,
        },
{
    let time = chrono::DateTime::<chrono::Utc>::from_timestamp(secs, nanos);
    time.map(|time| time.to_rfc3339())
}

/// What the regular expression `pattern` captures in `group` of its first match in `text`: nothing
/// where it does not match, an error message where it is no regular expression.
pub uninterp spec fn captured(pattern: Seq<char>, text: Seq<char>, group: nat) -> Result<
    Option<Seq<char>>,
    Seq<char>,
>;

/// Calls `regex::Regex::new`, `captures` and `Captures::get`: the result is the text named by
/// [`captured`].
#[verifier::external_body]
pub(crate) fn capture(pattern: &str, text: &str, group: usize) -> (result: Result<
    Option<String>,
    String,
>)
    ensures
        match result {
            Ok(Some(part)) => captured(pattern@, text@, group as nat) is Ok && captured(
                pattern@,
                text@,
                group as nat,
            )->Ok_0 == Some(part@),
            Ok(None) => captured(pattern@, text@, group as nat) is Ok && captured(
                pattern@,
                text@,
                group as nat,
            )->Ok_0 is None,
            Err(message) => captured(pattern@, text@, group as nat) is Err && captured(
                pattern@,
                text@,
                group as nat,
            )->Err_0 == message@,
        },
{
    let regex = regex::Regex::new(pattern).map_err(|error| error.to_string())?;
    let part = regex.captures(text).and_then(|found| found.get(group));
    Ok(part.map(|part| part.as_str().to_string()))
}

/// The SHA-1 digest of some bytes.
pub uninterp spec fn sha1_digest(data: Seq<u8>) -> Seq<u8>;

/// Calls `sha1::Sha1`, which takes the two parts one after the other: the result is the digest of
/// both as one, which has 20 bytes.
#[verifier::external_body]
pub(crate) fn sha1(first: &[u8], second: &[u8]) -> (digest: Vec<u8>)
    ensures
        digest@ == sha1_digest(first@ + second@),
        digest@.len() == 20,
{
    let mut hasher = <sha1::Sha1 as sha1::Digest>::new();
    sha1::Digest::update(&mut hasher, first);
    sha1::Digest::update(&mut hasher, second);
    sha1::Digest::finalize(hasher).to_vec()
}

/// The character for a value below sixteen in hexadecimal notation.
pub open spec fn hex_digit(value: u8) -> char {
    if value < 10 {
        (48 + value) as char
    } else {
        (87 + value) as char
    }
}

/// The bytes in hexadecimal notation, in lower case, the higher half of a byte first.
pub open spec fn hex_text(data: Seq<u8>) -> Seq<char> {
    Seq::new(
        2 * data.len(),
        |i: int|
            if i % 2 == 0 {
                hex_digit(data[i / 2] / 16)
            } else {
                hex_digit(data[i / 2] % 16)
            },
    )
}

/// Calls `hex::encode`: the bytes in hexadecimal notation.
#[verifier::external_body]
pub(crate) fn hex_encode(data: Vec<u8>) -> (text: String)
    ensures
        text@ == hex_text(data@),
{
    hex::encode(data)
}

} // verus!
