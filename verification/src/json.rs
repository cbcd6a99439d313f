//! JSON text: reading one level of a document, and writing the records that are
//! fingerprinted or sent as JSON.

use vstd::prelude::*;
use vstd::string::*;
use serde_json::Value;
use crate::text::{decimal, join, joined, opt_text, same, text, texts, to_decimal};

verus! {

/// One level of a JSON document. Members and elements are kept as JSON texts.
#[derive(Clone, Debug, PartialEq, Eq)]
pub enum JsonValue {
    Null,
    Bool(bool),
    /// A number, with its value where that is a `u64`.
    Number(Option<u64>),
    Text(String),
    List(Vec<String>),
    Record(Vec<(String, String)>),
}

/// What a [`JsonValue`] holds.
pub ghost enum JsonView {
    Null,
    Bool(bool),
    Number(Option<u64>),
    Text(Seq<char>),
    List(Seq<Seq<char>>),
    Record(Seq<(Seq<char>, Seq<char>)>),
}

impl View for JsonValue {
    type V = JsonView;

    open spec fn view(&self) -> JsonView {
        match *self {
            JsonValue::Null => JsonView::Null,
            JsonValue::Bool(b) => JsonView::Bool(b),
            JsonValue::Number(n) => JsonView::Number(n),
            JsonValue::Text(s) => JsonView::Text(s@),
            JsonValue::List(items) => JsonView::List(texts(items@)),
            JsonValue::Record(members) => JsonView::Record(
                members@.map_values(|m: (String, String)| (m.0@, m.1@)),
            ),
        }
    }
}

/// What `serde_json::from_str` makes of a text: the top level of the document, its
/// members and elements printed as compact JSON again, or the parse error's message.
pub uninterp spec fn json_parsed(text: Seq<char>) -> Result<JsonView, Seq<char>>;

/// Reads one level of a document with `serde_json::from_str`. The result is the
/// function [`json_parsed`] of the text; nothing else is claimed of it.
#[verifier::external_body]
pub(crate) fn parse_json(text: &str) -> (r: Result<JsonValue, String>)
    ensures
        match r {
            Ok(value) => json_parsed(text@) == Ok::<JsonView, Seq<char>>(value@),
            Err(message) => json_parsed(text@) == Err::<JsonView, Seq<char>>(message@),
        },
{
    match serde_json::from_str::<Value>(text) {
        Ok(Value::Null) => Ok(JsonValue::Null),
        Ok(Value::Bool(b)) => Ok(JsonValue::Bool(b)),
        Ok(Value::Number(n)) => Ok(JsonValue::Number(n.as_u64())),
        Ok(Value::String(s)) => Ok(JsonValue::Text(s)),
        Ok(Value::Array(a)) => Ok(JsonValue::List(a.iter().map(|v| v.to_string()).collect())),
        Ok(Value::Object(o)) => {
            Ok(JsonValue::Record(o.iter().map(|(k, v)| (k.clone(), v.to_string())).collect()))
        },
        Err(e) => Err(e.to_string()),
    }
}

/// What `serde_json::to_string` prints for a string: the string in quotes, with the
/// characters escaped that JSON wants escaped.
pub uninterp spec fn json_string(s: Seq<char>) -> Seq<char>;

/// Prints a string as JSON with `serde_json::to_string`, which does not fail on a
/// string. The result is the function [`json_string`] of the string.
#[verifier::external_body]
pub(crate) fn quoted(s: &str) -> (r: String)
    ensures
        r@ == json_string(s@),
{
    serde_json::to_string(s).unwrap_or_default()
}

// ---------------------------------------------------------------------------
// Reading

/// The JSON text of the member `key`, if the value is a record that has one.
pub open spec fn member(value: JsonView, key: Seq<char>) -> Option<Seq<char>> {
    match value {
        JsonView::Record(members) => member_from(members, key, 0),
        _ => None,
    }
}

/// The first member named `key` at or behind `from`.
pub open spec fn member_from(members: Seq<(Seq<char>, Seq<char>)>, key: Seq<char>, from: int) -> Option<
    Seq<char>,
>
    decreases members.len() - from,
{
    if from < 0 || from >= members.len() {
        None
    } else if members[from].0 == key {
        Some(members[from].1)
    } else {
        member_from(members, key, from + 1)
    }
}

/// The string that a JSON text stands for, if it stands for one.
pub open spec fn as_text(json: Option<Seq<char>>) -> Option<Seq<char>> {
    match json {
        Some(t) => match json_parsed(t) {
            Ok(JsonView::Text(s)) => Some(s),
            _ => None,
        },
        None => None,
    }
}

/// The unsigned number that a JSON text stands for, if it stands for one.
pub open spec fn as_number(json: Option<Seq<char>>) -> Option<u64> {
    match json {
        Some(t) => match json_parsed(t) {
            Ok(JsonView::Number(n)) => n,
            _ => None,
        },
        None => None,
    }
}

/// The truth value that a JSON text stands for, if it stands for one.
pub open spec fn as_truth(json: Option<Seq<char>>) -> Option<bool> {
    match json {
        Some(t) => match json_parsed(t) {
            Ok(JsonView::Bool(b)) => Some(b),
            _ => None,
        },
        None => None,
    }
}

/// The JSON texts of the elements, if a JSON text stands for a list.
pub open spec fn as_elements(json: Option<Seq<char>>) -> Option<Seq<Seq<char>>> {
    match json {
        Some(t) => match json_parsed(t) {
            Ok(JsonView::List(items)) => Some(items),
            _ => None,
        },
        None => None,
    }
}

/// The member `key` of what an optional JSON text stands for.
pub open spec fn inner_member(json: Option<Seq<char>>, key: Seq<char>) -> Option<Seq<char>> {
    match json {
        Some(t) => match json_parsed(t) {
            Ok(value) => member(value, key),
            Err(_) => None,
        },
        None => None,
    }
}

impl JsonValue {
    /// The JSON text of a member.
    pub fn get(&self, key: &str) -> (r: Option<String>)
        ensures
            opt_text(r) == member(self@, key@),
    {
        match self {
            JsonValue::Record(members) => {
                let ghost view = members@.map_values(|m: (String, String)| (m.0@, m.1@));
                let mut i: usize = 0;
                while i < members.len()
                    invariant
                        i <= members@.len(),
                        view == members@.map_values(|m: (String, String)| (m.0@, m.1@)),
                        self@ == JsonView::Record(view),
                        member_from(view, key@, 0) == member_from(view, key@, i as int),
                    decreases members@.len() - i,
                {
                    assert(view[i as int] == (members@[i as int].0@, members@[i as int].1@));
                    if same(members[i].0.as_str(), key) {
                        return Some(members[i].1.clone());
                    }
                    i += 1;
                }
                None
            },
            _ => None,
        }
    }
}

/// The string that a JSON text stands for.
pub fn text_in(json: &Option<String>) -> (r: Option<String>)
    ensures
        opt_text(r) == as_text(opt_text(*json)),
{
    match json {
        Some(t) => match parse_json(t.as_str()) {
            Ok(JsonValue::Text(s)) => Some(s),
            _ => None,
        },
        None => None,
    }
}

/// The unsigned number that a JSON text stands for.
pub fn number_in(json: &Option<String>) -> (r: Option<u64>)
    ensures
        r == as_number(opt_text(*json)),
{
    match json {
        Some(t) => match parse_json(t.as_str()) {
            Ok(JsonValue::Number(n)) => n,
            _ => None,
        },
        None => None,
    }
}

/// The truth value that a JSON text stands for.
pub fn truth_in(json: &Option<String>) -> (r: Option<bool>)
    ensures
        r == as_truth(opt_text(*json)),
{
    match json {
        Some(t) => match parse_json(t.as_str()) {
            Ok(JsonValue::Bool(b)) => Some(b),
            _ => None,
        },
        None => None,
    }
}

/// The JSON texts of the elements of a list.
pub fn elements_in(json: &Option<String>) -> (r: Option<Vec<String>>)
    ensures
        match r {
            Some(items) => as_elements(opt_text(*json)) == Some(texts(items@)),
            None => as_elements(opt_text(*json)) is None,
        },
{
    match json {
        Some(t) => match parse_json(t.as_str()) {
            Ok(JsonValue::List(items)) => Some(items),
            _ => None,
        },
        None => None,
    }
}

/// The member `key` of what an optional JSON text stands for.
pub fn member_in(json: &Option<String>, key: &str) -> (r: Option<String>)
    ensures
        opt_text(r) == inner_member(opt_text(*json), key@),
{
    match json {
        Some(t) => match parse_json(t.as_str()) {
            Ok(value) => value.get(key),
            Err(_) => None,
        },
        None => None,
    }
}

// ---------------------------------------------------------------------------
// Writing

/// `"key":value`
pub open spec fn field(key: Seq<char>, value: Seq<char>) -> Seq<char> {
    "\""@ + key + "\":"@ + value
}

/// A record of fields, in compact form.
pub open spec fn object(fields: Seq<Seq<char>>) -> Seq<char> {
    "{"@ + joined(fields, ","@) + "}"@
}

/// A list of JSON texts, in compact form.
pub open spec fn array(items: Seq<Seq<char>>) -> Seq<char> {
    "["@ + joined(items, ","@) + "]"@
}

/// A list of strings.
pub open spec fn string_array(items: Seq<Seq<char>>) -> Seq<char> {
    array(items.map_values(|s: Seq<char>| json_string(s)))
}

/// A string or `null`.
pub open spec fn optional_string(s: Option<Seq<char>>) -> Seq<char> {
    match s {
        Some(t) => json_string(t),
        None => "null"@,
    }
}

/// A number or `null`.
pub open spec fn optional_number(n: Option<usize>) -> Seq<char> {
    match n {
        Some(k) => decimal(k as nat),
        None => "null"@,
    }
}

/// `true` or `false`.
pub open spec fn truth(b: bool) -> Seq<char> {
    if b {
        "true"@
    } else {
        "false"@
    }
}

pub(crate) fn field_text(key: &str, value: &str) -> (r: String)
    ensures
        r@ == field(key@, value@),
{
    text("\"").concat(key).concat("\":").concat(value)
}

pub(crate) fn object_text(fields: &Vec<String>) -> (r: String)
    ensures
        r@ == object(texts(fields@)),
{
    text("{").concat(join(fields, ",").as_str()).concat("}")
}

pub(crate) fn array_text(items: &Vec<String>) -> (r: String)
    ensures
        r@ == array(texts(items@)),
{
    text("[").concat(join(items, ",").as_str()).concat("]")
}

pub(crate) fn string_array_text(items: &Vec<String>) -> (r: String)
    ensures
        r@ == string_array(texts(items@)),
{
    let mut parts: Vec<String> = Vec::new();
    let ghost all = texts(items@).map_values(|s: Seq<char>| json_string(s));
    let mut i: usize = 0;
    while i < items.len()
        invariant
            i <= items@.len(),
            all == texts(items@).map_values(|s: Seq<char>| json_string(s)),
            texts(parts@) == all.take(i as int),
        decreases items@.len() - i,
    {
        let ghost prior = texts(parts@);
        parts.push(quoted(items[i].as_str()));
        i += 1;
        assert(texts(parts@) =~= prior.push(all[i - 1]));
        assert(all.take(i as int) =~= all.take(i - 1).push(all[i - 1]));
    }
    assert(all.take(all.len() as int) =~= all);
    array_text(&parts)
}

pub(crate) fn optional_string_text(s: &Option<String>) -> (r: String)
    ensures
        r@ == optional_string(opt_text(*s)),
{
    match s {
        Some(t) => quoted(t.as_str()),
        None => text("null"),
    }
}

pub(crate) fn optional_number_text(n: Option<usize>) -> (r: String)
    ensures
        r@ == optional_number(n),
{
    match n {
        Some(k) => to_decimal(k as u64),
        None => text("null"),
    }
}

pub(crate) fn truth_text(b: bool) -> (r: String)
    ensures
        r@ == truth(b),
{
    if b {
        text("true")
    } else {
        text("false")
    }
}

} // verus!
