//! Job parameters as JSON text, and reading single settings out of them.
//!
//! A JSON value is known here by its compact text: the text that it prints as,
//! without white space.

use serde_json::Value;
use vstd::prelude::*;

verus! {

/// A JSON value of the `serde_json` crate.
#[verifier::external_type_specification]
#[verifier::external_body]
pub struct ExValue(serde_json::Value);

/// What a JSON value holds, as its compact text.
pub uninterp spec fn json_text(v: Value) -> Seq<char>;

/// The compact text of the JSON value that a text holds, where it holds one:
/// what `serde_json::from_str` reads.
pub uninterp spec fn json_read(text: Seq<char>) -> Option<Seq<char>>;

/// The compact text of the JSON value that bytes hold, where they hold one:
/// what `serde_json::from_slice` reads.
pub uninterp spec fn json_read_bytes(bytes: Seq<u8>) -> Option<Seq<char>>;

/// The compact text of a member of a JSON object: what `Value::get` finds.
pub uninterp spec fn json_member(text: Seq<char>, key: Seq<char>) -> Option<Seq<char>>;

/// The integer that a JSON value is: what `Value::as_i64` gives.
pub uninterp spec fn json_int(text: Seq<char>) -> Option<i64>;

/// The bits of the double that a JSON number is: what `Value::as_f64` gives.
pub uninterp spec fn json_double_bits(text: Seq<char>) -> Option<u64>;

/// The characters of a JSON string: what `Value::as_str` gives.
pub uninterp spec fn json_string(text: Seq<char>) -> Option<Seq<char>>;

/// `serde_json::from_str` into a `Value`: the value that the text holds, or
/// nothing where the text is not one JSON value. The text of an empty object
/// holds an empty object.
#[verifier::external_body]
fn parse(text: &str) -> (r: Option<Value>)
    ensures
        match r {
            Some(v) => json_read(text@) == Some(json_text(v)),
            None => json_read(text@) is None,
        },
        text@ == "{}"@ ==> r is Some && json_text(r->Some_0) == "{}"@,
        text@ == "null"@ ==> r is Some && json_text(r->Some_0) == "null"@,
{
    serde_json::from_str::<Value>(text).ok()
}

/// `serde_json::from_slice` into a `Value`: the value that the bytes hold, or
/// nothing where they are not one JSON value.
#[verifier::external_body]
fn parse_bytes(bytes: &[u8]) -> (r: Option<Value>)
    ensures
        match r {
            Some(v) => json_read_bytes(bytes@) == Some(json_text(v)),
            None => json_read_bytes(bytes@) is None,
        },
{
    serde_json::from_slice::<Value>(bytes).ok()
}

/// `serde_json::to_string` of a `Value`: its compact text. Printing a `Value`
/// cannot fail, as its object keys are strings.
#[verifier::external_body]
fn print(v: &Value) -> (r: String)
    ensures
        r@ == json_text(*v),
{
    serde_json::to_string(v).unwrap_or_default()
}

/// `Value::get` with a string: the member of that name, or nothing where the
/// value is not an object or has no such member. An empty object and a null
/// have no members.
#[verifier::external_body]
fn member<'a>(v: &'a Value, key: &str) -> (r: Option<&'a Value>)
    ensures
        match r {
            Some(m) => json_member(json_text(*v), key@) == Some(json_text(*m)),
            None => json_member(json_text(*v), key@) is None,
        },
        json_text(*v) == "{}"@ || json_text(*v) == "null"@ ==> r is None,
{
    v.get(key)
}

/// `Value::as_i64`: the value as an integer, where it is one that 64 bits hold.
#[verifier::external_body]
fn as_int(v: &Value) -> (r: Option<i64>)
    ensures
        r == json_int(json_text(*v)),
{
    v.as_i64()
}

/// `Value::as_f64`, as bits: the value as a double, where it is a number.
#[verifier::external_body]
fn as_double_bits(v: &Value) -> (r: Option<u64>)
    ensures
        r == json_double_bits(json_text(*v)),
{
    v.as_f64().map(|x| x.to_bits())
}

/// `Value::as_str`: the characters of the value, where it is a string.
#[verifier::external_body]
fn as_text(v: &Value) -> (r: Option<String>)
    ensures
        match r {
            Some(s) => json_string(json_text(*v)) == Some(s@),
            None => json_string(json_text(*v)) is None,
        },
{
    v.as_str().map(|s| s.to_owned())
}

/// The member `key` of the object that `params` holds.
pub open spec fn param(params: Seq<char>, key: Seq<char>) -> Option<Seq<char>> {
    match json_read(params) {
        Some(t) => json_member(t, key),
        None => None,
    }
}

/// The setting `key` as an integer.
pub open spec fn int_param(params: Seq<char>, key: Seq<char>) -> Option<i64> {
    match param(params, key) {
        Some(m) => json_int(m),
        None => None,
    }
}

/// The setting `key` as the bits of a double.
pub open spec fn double_param(params: Seq<char>, key: Seq<char>) -> Option<u64> {
    match param(params, key) {
        Some(m) => json_double_bits(m),
        None => None,
    }
}

/// The setting `key` as text.
pub open spec fn text_param(params: Seq<char>, key: Seq<char>) -> Option<Seq<char>> {
    match param(params, key) {
        Some(m) => json_string(m),
        None => None,
    }
}

/// A value, or `default` where there is none.
pub open spec fn or_default<T>(found: Option<T>, default: T) -> T {
    match found {
        Some(x) => x,
        None => default,
    }
}

/// The setting `key` as an integer, where it is there and is one.
pub fn get_i64(params: &str, key: &str) -> (r: Option<i64>)
    ensures
        r == int_param(params@, key@),
        params@ == "{}"@ || params@ == "null"@ ==> r is None,
{
    match parse(params) {
        Some(v) => match member(&v, key) {
            Some(m) => as_int(m),
            None => None,
        },
        None => None,
    }
}

/// The setting `key` as the bits of a double, where it is there and is a
/// number.
pub fn get_f64_bits(params: &str, key: &str) -> (r: Option<u64>)
    ensures
        r == double_param(params@, key@),
        params@ == "{}"@ || params@ == "null"@ ==> r is None,
{
    match parse(params) {
        Some(v) => match member(&v, key) {
            Some(m) => as_double_bits(m),
            None => None,
        },
        None => None,
    }
}

/// The setting `key` as text, where it is there and is a string.
pub fn get_text(params: &str, key: &str) -> (r: Option<String>)
    ensures
        match r {
            Some(s) => text_param(params@, key@) == Some(s@),
            None => text_param(params@, key@) is None,
        },
        params@ == "{}"@ || params@ == "null"@ ==> r is None,
{
    match parse(params) {
        Some(v) => match member(&v, key) {
            Some(m) => as_text(m),
            None => None,
        },
        None => None,
    }
}

/// The setting `key` as an integer, or `default`.
pub fn p_i64(params: &str, key: &str, default: i64) -> (r: i64)
    ensures
        r == or_default(int_param(params@, key@), default),
        params@ == "{}"@ || params@ == "null"@ ==> r == default,
{
    int_or(get_i64(params, key), default)
}

/// The setting `key` as the bits of a double, or `default`.
pub fn p_f64(params: &str, key: &str, default: u64) -> (r: u64)
    ensures
        r == or_default(double_param(params@, key@), default),
        params@ == "{}"@ || params@ == "null"@ ==> r == default,
{
    bits_or(get_f64_bits(params, key), default)
}

/// The setting `key` as text, or `default`.
pub fn p_str(params: &str, key: &str, default: &str) -> (r: String)
    ensures
        r@ == or_default(text_param(params@, key@), default@),
        params@ == "{}"@ || params@ == "null"@ ==> r@ == default@,
{
    text_or(get_text(params, key), default)
}

/// An integer that was found, or `default`.
pub fn int_or(found: Option<i64>, default: i64) -> (r: i64)
    ensures
        r == or_default(found, default),
{
    match found {
        Some(x) => x,
        None => default,
    }
}

/// Bits that were found, or `default`.
pub fn bits_or(found: Option<u64>, default: u64) -> (r: u64)
    ensures
        r == or_default(found, default),
{
    match found {
        Some(x) => x,
        None => default,
    }
}

/// A text that was found, or `default`.
pub fn text_or(found: Option<String>, default: &str) -> (r: String)
    ensures
        match found {
            Some(s) => r@ == s@,
            None => r@ == default@,
        },
{
    match found {
        Some(s) => s,
        None => default.to_owned(),
    }
}

/// A text as compact JSON, where it is JSON.
pub fn compact(text: &str) -> (r: Option<String>)
    ensures
        match r {
            Some(s) => json_read(text@) == Some(s@),
            None => json_read(text@) is None,
        },
        text@ == "{}"@ ==> r is Some && r->Some_0@ == "{}"@,
        text@ == "null"@ ==> r is Some && r->Some_0@ == "null"@,
{
    match parse(text) {
        Some(v) => Some(print(&v)),
        None => None,
    }
}

/// A text that holds a JSON value: the text itself where it does, else
/// `default`.
pub open spec fn json_or(text: Seq<char>, default: Seq<char>) -> Seq<char> {
    if json_read(text) is Some {
        text
    } else {
        default
    }
}

/// The parameters that a client has sent as text: the text, or an empty object
/// where it is not JSON.
pub fn params_from_text(text: &str) -> (r: String)
    ensures
        r@ == json_or(text@, "{}"@),
        text@ == "null"@ ==> r@ == "null"@,
{
    match parse(text) {
        Some(_) => text.to_owned(),
        None => "{}".to_owned(),
    }
}

/// The parameters that a stored record holds: the stored text, or a null where
/// it is not JSON.
pub fn params_from_record(text: &str) -> (r: String)
    ensures
        r@ == json_or(text@, "null"@),
        text@ == "{}"@ ==> r@ == "{}"@,
{
    match parse(text) {
        Some(_) => text.to_owned(),
        None => "null".to_owned(),
    }
}

/// What is read back of parameters after they were stored: they are printed in
/// compact form, and what is not JSON is read as a null.
pub open spec fn as_printed(params: Seq<char>) -> Seq<char> {
    json_or(or_default(json_read(params), "null"@), "null"@)
}

/// What is read back of parameters after they were stored.
pub fn printed(params: &str) -> (r: String)
    ensures
        r@ == as_printed(params@),
        params@ == "{}"@ ==> r@ == "{}"@,
        params@ == "null"@ ==> r@ == "null"@,
{
    let text: String = text_or(compact(params), "null");
    params_from_record(text.as_str())
}

/// The parameters that the body of a request asks for: the member `params` of
/// the object that it holds, where it is not empty, is JSON and has one.
pub open spec fn body_params(body: Seq<u8>) -> Option<Seq<char>> {
    if body.len() == 0 {
        None
    } else {
        match json_read_bytes(body) {
            Some(t) => json_member(t, "params"@),
            None => None,
        }
    }
}

/// The parameters that the body of a request asks for.
pub fn params_from_body(body: &[u8]) -> (r: Option<String>)
    ensures
        match r {
            Some(s) => body_params(body@) == Some(s@),
            None => body_params(body@) is None,
        },
{
    if body.len() == 0 {
        return None;
    }
    match parse_bytes(body) {
        Some(v) => match member(&v, "params") {
            Some(m) => Some(print(m)),
            None => None,
        },
        None => None,
    }
}

/// A setting is what the parameters hold under its own key, read as what is
/// asked for. Nothing else in the parameters matters to it.
pub proof fn law_settings_are_read_by_their_key(
    params: Seq<char>,
    object: Seq<char>,
    key: Seq<char>,
    value: Seq<char>,
)
    requires
        json_read(params) == Some(object),
        json_member(object, key) == Some(value),
    ensures
        int_param(params, key) == json_int(value),
        double_param(params, key) == json_double_bits(value),
        text_param(params, key) == json_string(value),
{
}

/// Parameters that are not JSON, or that have nothing under a key, give no
/// setting for it.
pub proof fn law_missing_settings_are_not_made_up(params: Seq<char>, key: Seq<char>)
    requires
        json_read(params) matches Some(object) ==> json_member(object, key) is None,
    ensures
        int_param(params, key) is None,
        double_param(params, key) is None,
        text_param(params, key) is None,
{
}

/// A default takes the place of what is missing and of nothing else.
pub proof fn law_defaults_fill_gaps<T>(x: T, default: T)
    ensures
        or_default(Some(x), default) == x,
        or_default(None, default) == default,
{
}

/// Text that is JSON is kept to the letter, so that every setting in it is
/// kept; any other text is replaced.
pub proof fn law_json_is_kept(text: Seq<char>, default: Seq<char>, key: Seq<char>)
    ensures
        json_read(text) is Some ==> json_or(text, default) == text,
        json_read(text) is Some ==> int_param(json_or(text, default), key) == int_param(text, key),
        json_read(text) is Some ==> double_param(json_or(text, default), key) == double_param(
            text,
            key,
        ),
        json_read(text) is Some ==> text_param(json_or(text, default), key) == text_param(
            text,
            key,
        ),
        json_read(text) is None ==> json_or(text, default) == default,
{
}

/// Parameters are stored as their compact text, which is read back as it was
/// stored wherever it is JSON itself; parameters that are not JSON are stored
/// as a null.
pub proof fn law_parameters_are_stored_compact(params: Seq<char>, text: Seq<char>)
    ensures
        json_read(params) == Some(text) && json_read(text) is Some ==> as_printed(params) == text,
        json_read(params) is None ==> as_printed(params) == "null"@,
{
}

/// A request asks for the parameters that its body has under `params`. A body
/// that is empty, is not JSON or has nothing there asks for none.
pub proof fn law_requested_parameters(body: Seq<u8>, object: Seq<char>)
    ensures
        body.len() > 0 && json_read_bytes(body) == Some(object) ==> body_params(body)
            == json_member(object, "params"@),
        body.len() == 0 || json_read_bytes(body) is None ==> body_params(body) is None,
{
}

} // verus!
