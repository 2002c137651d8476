//! JSON documents, held as their text: looking into them and writing strings.
use vstd::prelude::*;
use vstd::string::*;

use serde_json::Value;

use crate::ids::hex;
use crate::text::{opt_text, same_text, texts};

verus! {

/// One level of a JSON document. What a list or an object holds stands in it as
/// the text of a document of its own.
#[derive(Debug, Clone)]
pub enum Json {
    Null,
    Bool(bool),
    /// A number, where it is a `u64`.
    Number(Option<u64>),
    Text(String),
    List(Vec<String>),
    Object(Vec<(String, String)>),
}

/// A [`Json`] over character sequences.
pub enum JsonView {
    Null,
    Bool(bool),
    Number(Option<u64>),
    Text(Seq<char>),
    List(Seq<Seq<char>>),
    Object(Seq<(Seq<char>, Seq<char>)>),
}

/// The members of an object, by their views.
pub open spec fn members_view(v: Seq<(String, String)>) -> Seq<(Seq<char>, Seq<char>)> {
    v.map_values(|m: (String, String)| (m.0@, m.1@))
}

impl View for Json {
    type V = JsonView;

    open spec fn view(&self) -> JsonView {
        match self {
            Json::Null => JsonView::Null,
            Json::Bool(b) => JsonView::Bool(*b),
            Json::Number(n) => JsonView::Number(*n),
            Json::Text(s) => JsonView::Text(s@),
            Json::List(v) => JsonView::List(texts(v@)),
            Json::Object(v) => JsonView::Object(members_view(v@)),
        }
    }
}

/// What `serde_json::from_str` reads from a text, as far as one level goes, or
/// what its error says.
pub uninterp spec fn json_of(text: Seq<char>) -> Result<JsonView, Seq<char>>;

/// What was read, by its view.
pub open spec fn json_result(r: Result<Json, String>) -> Result<JsonView, Seq<char>> {
    match r {
        Ok(v) => Ok(v@),
        Err(e) => Err(e@),
    }
}

/// `serde_json::from_str` for a `serde_json::Value`. The result is named by
/// [`json_of`]; what it holds is written out again by `Value`'s `Display`.
#[verifier::external_body]
pub(crate) fn parse_json(text: &str) -> (r: Result<Json, String>)
    ensures
        json_result(r) == json_of(text@),
{
    match serde_json::from_str::<Value>(text) {
        Err(e) => Err(e.to_string()),
        Ok(Value::Null) => Ok(Json::Null),
        Ok(Value::Bool(b)) => Ok(Json::Bool(b)),
        Ok(Value::Number(n)) => Ok(Json::Number(n.as_u64())),
        Ok(Value::String(s)) => Ok(Json::Text(s)),
        Ok(Value::Array(a)) => Ok(Json::List(a.iter().map(|v| v.to_string()).collect())),
        Ok(Value::Object(o)) => Ok(
            Json::Object(o.iter().map(|(k, v)| (k.clone(), v.to_string())).collect()),
        ),
    }
}

// ---------------------------------------------------------------------------
// Looking into a document
// ---------------------------------------------------------------------------
/// The value of the first member with this name.
pub open spec fn named(members: Seq<(Seq<char>, Seq<char>)>, name: Seq<char>) -> Option<Seq<char>>
    decreases members.len(),
{
    if members.len() == 0 {
        None
    } else if members[0].0 == name {
        Some(members[0].1)
    } else {
        named(members.drop_first(), name)
    }
}

/// The member of this name in the document of a text.
pub open spec fn member(text: Seq<char>, name: Seq<char>) -> Option<Seq<char>> {
    match json_of(text) {
        Ok(JsonView::Object(members)) => named(members, name),
        _ => None,
    }
}

/// The items of the document of a text, where it is a list.
pub open spec fn items(text: Seq<char>) -> Option<Seq<Seq<char>>> {
    match json_of(text) {
        Ok(JsonView::List(v)) => Some(v),
        _ => None,
    }
}

/// The first item of the document of a text.
pub open spec fn first_item(text: Seq<char>) -> Option<Seq<char>> {
    match items(text) {
        Some(v) => if v.len() > 0 {
            Some(v[0])
        } else {
            None
        },
        None => None,
    }
}

/// The text that a document is.
pub open spec fn text_value(text: Seq<char>) -> Option<Seq<char>> {
    match json_of(text) {
        Ok(JsonView::Text(s)) => Some(s),
        _ => None,
    }
}

/// The `u64` that a document is.
pub open spec fn number_value(text: Seq<char>) -> Option<u64> {
    match json_of(text) {
        Ok(JsonView::Number(n)) => n,
        _ => None,
    }
}

/// The text under a name in the document of a text.
pub open spec fn member_text(text: Seq<char>, name: Seq<char>) -> Option<Seq<char>> {
    match member(text, name) {
        Some(t) => text_value(t),
        None => None,
    }
}

/// The member of this name in the document of a text.
pub fn get_member(text: &str, name: &str) -> (r: Option<String>)
    ensures
        opt_text(r) == member(text@, name@),
{
    match parse_json(text) {
        Ok(Json::Object(members)) => {
            let ghost all = members_view(members@);
            let mut i: usize = 0;
            assert(all.skip(0) =~= all);
            while i < members.len()
                invariant
                    i <= members@.len(),
                    all == members_view(members@),
                    named(all, name@) == named(all.skip(i as int), name@),
                    member(text@, name@) == named(all, name@),
                decreases members@.len() - i,
            {
                assert(all.skip(i as int).drop_first() =~= all.skip(i + 1));
                assert(all.skip(i as int)[0] == (members@[i as int].0@, members@[i as int].1@));
                if same_text(members[i].0.as_str(), name) {
                    return Some(members[i].1.clone());
                }
                i += 1;
            }
            None
        },
        _ => None,
    }
}

/// The items of the document of a text, where it is a list.
pub fn get_items(text: &str) -> (r: Option<Vec<String>>)
    ensures
        match r {
            Some(v) => items(text@) == Some(texts(v@)),
            None => items(text@) is None,
        },
{
    match parse_json(text) {
        Ok(Json::List(v)) => Some(v),
        _ => None,
    }
}

/// The first item of the document of a text.
pub fn get_first(text: &str) -> (r: Option<String>)
    ensures
        opt_text(r) == first_item(text@),
{
    match get_items(text) {
        Some(v) => if v.len() > 0 {
            Some(v[0].clone())
        } else {
            None
        },
        None => None,
    }
}

/// The text that a document is.
pub fn as_text(text: &str) -> (r: Option<String>)
    ensures
        opt_text(r) == text_value(text@),
{
    match parse_json(text) {
        Ok(Json::Text(s)) => Some(s),
        _ => None,
    }
}

/// The `u64` that a document is.
pub fn as_number(text: &str) -> (r: Option<u64>)
    ensures
        r == number_value(text@),
{
    match parse_json(text) {
        Ok(Json::Number(n)) => n,
        _ => None,
    }
}

/// The text under a name in the document of a text.
pub fn get_text(text: &str, name: &str) -> (r: Option<String>)
    ensures
        opt_text(r) == member_text(text@, name@),
{
    match get_member(text, name) {
        Some(t) => as_text(t.as_str()),
        None => None,
    }
}

// ---------------------------------------------------------------------------
// Writing
// ---------------------------------------------------------------------------
/// A JSON document over several lines, as `serde_json::to_string_pretty` writes
/// it; empty for a text that is not JSON.
pub uninterp spec fn json_pretty(text: Seq<char>) -> Seq<char>;

/// `serde_json::to_string_pretty`, on the document of a text. The result is
/// named by [`json_pretty`].
#[verifier::external_body]
pub(crate) fn pretty(text: &str) -> (r: String)
    ensures
        r@ == json_pretty(text@),
{
    let document = serde_json::from_str::<Value>(text);
    document.and_then(|v| serde_json::to_string_pretty(&v)).unwrap_or_default()
}

/// A character inside a JSON string.
pub open spec fn json_char(c: char) -> Seq<char> {
    if c == '"' {
        seq!['\\', '"']
    } else if c == '\\' {
        seq!['\\', '\\']
    } else if c == '\u{8}' {
        seq!['\\', 'b']
    } else if c == '\t' {
        seq!['\\', 't']
    } else if c == '\n' {
        seq!['\\', 'n']
    } else if c == '\u{c}' {
        seq!['\\', 'f']
    } else if c == '\r' {
        seq!['\\', 'r']
    } else if (c as int) < 0x20 {
        seq!['\\', 'u', '0', '0'] + hex(c as int, 2)
    } else {
        seq![c]
    }
}

/// The characters of a text, each as it stands inside a JSON string.
pub open spec fn json_chars(s: Seq<char>) -> Seq<char>
    decreases s.len(),
{
    if s.len() == 0 {
        Seq::empty()
    } else {
        json_chars(s.drop_last()) + json_char(s.last())
    }
}

/// A text as a JSON string.
pub open spec fn quoted(s: Seq<char>) -> Seq<char> {
    seq!['"'] + json_chars(s) + seq!['"']
}

/// `serde_json::Value`'s `Display` on a string: the text in quotes, with the
/// quote, the backslash and the control characters below U+0020 escaped.
#[verifier::external_body]
pub(crate) fn quote(s: &str) -> (r: String)
    ensures
        r@ == quoted(s@),
{
    Value::String(s.to_string()).to_string()
}

/// A text as JSON, or null.
pub open spec fn text_or_null(o: Option<Seq<char>>) -> Seq<char> {
    match o {
        Some(t) => quoted(t),
        None => "null"@,
    }
}

/// A text as JSON, or null.
pub fn quote_opt(o: &Option<String>) -> (r: String)
    ensures
        r@ == text_or_null(opt_text(*o)),
{
    match o {
        Some(t) => quote(t.as_str()),
        None => String::from_str("null"),
    }
}

} // verus!
