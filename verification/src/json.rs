//! Reading values out of JSON text: a lookup by JSON pointer (RFC 6901),
//! done by `serde_json`, and the verified readings built on it.

use crate::text::push_char;
use vstd::prelude::*;
use vstd::string::StringExecFns;

verus! {

/// What the library reads of a JSON value.
#[derive(Debug, PartialEq, Eq)]
pub enum JsonNode {
    Null,
    Bool(bool),
    /// A number, with its value when it is an unsigned 64-bit integer.
    Number(Option<u64>),
    Str(String),
    /// An array, with its length.
    Array(usize),
    Object,
}

/// The mathematical form of a [`JsonNode`].
pub enum JsonNodeView {
    Null,
    Bool(bool),
    Number(Option<u64>),
    Str(Seq<char>),
    Array(nat),
    Object,
}

impl View for JsonNode {
    type V = JsonNodeView;

    open spec fn view(&self) -> JsonNodeView {
        match self {
            JsonNode::Null => JsonNodeView::Null,
            JsonNode::Bool(b) => JsonNodeView::Bool(*b),
            JsonNode::Number(n) => JsonNodeView::Number(*n),
            JsonNode::Str(s) => JsonNodeView::Str(s@),
            JsonNode::Array(n) => JsonNodeView::Array(*n as nat),
            JsonNode::Object => JsonNodeView::Object,
        }
    }
}

/// The view of a node that may be missing.
pub open spec fn node_view(n: Option<JsonNode>) -> Option<JsonNodeView> {
    match n {
        Some(x) => Some(x@),
        None => None,
    }
}

/// What `serde_json` finds at `pointer` in the document `text`: `None`
/// when `text` is not JSON or the pointer leads nowhere.
pub uninterp spec fn json_node(text: Seq<char>, pointer: Seq<char>) -> Option<JsonNodeView>;

/// Looks up `pointer` in the JSON document `text`.
///
/// Trusted: parses `text` with `serde_json::from_str` into a
/// `serde_json::Value`, looks the pointer up with `Value::pointer`, and
/// reads a number with `Number::as_u64`. The contract claims only that the
/// result is [`json_node`] of the two arguments, that is, that it depends
/// on them alone; what the parse and the lookup give is left unstated.
#[verifier::external_body]
pub(crate) fn json_node_at(text: &str, pointer: &str) -> (r: Option<JsonNode>)
    ensures
        node_view(r) == json_node(text@, pointer@),
{
    match serde_json::from_str::<serde_json::Value>(text) {
        Err(_) => None,
        Ok(v) => v.pointer(pointer).map(|n| match n {
            serde_json::Value::Null => JsonNode::Null,
            serde_json::Value::Bool(b) => JsonNode::Bool(*b),
            serde_json::Value::Number(x) => JsonNode::Number(x.as_u64()),
            serde_json::Value::String(s) => JsonNode::Str(s.clone()),
            serde_json::Value::Array(a) => JsonNode::Array(a.len()),
            serde_json::Value::Object(_) => JsonNode::Object,
        }),
    }
}

/// The count a node holds: its value when it is an unsigned integer.
pub open spec fn count_spec(n: Option<JsonNodeView>) -> Option<u64> {
    match n {
        Some(JsonNodeView::Number(c)) => c,
        _ => None,
    }
}

/// The count a node holds.
pub fn count_of(n: Option<JsonNode>) -> (r: Option<u64>)
    ensures
        r == count_spec(node_view(n)),
{
    match n {
        Some(JsonNode::Number(c)) => c,
        _ => None,
    }
}

/// The text a node holds: its value when it is a string.
pub open spec fn text_spec(n: Option<JsonNodeView>) -> Option<Seq<char>> {
    match n {
        Some(JsonNodeView::Str(s)) => Some(s),
        _ => None,
    }
}

/// The text a node holds.
pub fn text_of(n: Option<JsonNode>) -> (r: Option<String>)
    ensures
        match r {
            Some(s) => text_spec(node_view(n)) == Some(s@),
            None => text_spec(node_view(n)) is None,
        },
{
    match n {
        Some(JsonNode::Str(s)) => Some(s),
        _ => None,
    }
}

/// The decimal digit `d`.
pub open spec fn digit(d: nat) -> char {
    if d == 0 {
        '0'
    } else if d == 1 {
        '1'
    } else if d == 2 {
        '2'
    } else if d == 3 {
        '3'
    } else if d == 4 {
        '4'
    } else if d == 5 {
        '5'
    } else if d == 6 {
        '6'
    } else if d == 7 {
        '7'
    } else if d == 8 {
        '8'
    } else {
        '9'
    }
}

/// `n` in decimal, without leading zeros: the form of an array index in a
/// JSON pointer.
pub open spec fn decimal(n: nat) -> Seq<char>
    decreases n,
{
    if n < 10 {
        seq![digit(n)]
    } else {
        decimal(n / 10).push(digit(n % 10))
    }
}

fn digit_char(d: usize) -> (c: char)
    requires
        d < 10,
    ensures
        c == digit(d as nat),
{
    if d == 0 {
        '0'
    } else if d == 1 {
        '1'
    } else if d == 2 {
        '2'
    } else if d == 3 {
        '3'
    } else if d == 4 {
        '4'
    } else if d == 5 {
        '5'
    } else if d == 6 {
        '6'
    } else if d == 7 {
        '7'
    } else if d == 8 {
        '8'
    } else {
        '9'
    }
}

/// Appends `n` in decimal to `s`.
pub fn push_decimal(s: &mut String, n: usize)
    ensures
        final(s)@ == old(s)@ + decimal(n as nat),
    decreases n,
{
    if n >= 10 {
        push_decimal(s, n / 10);
        let ghost mid = s@;
        push_char(s, digit_char(n % 10));
        assert(old(s)@ + decimal(n as nat) =~= mid.push(digit((n % 10) as nat)));
    } else {
        push_char(s, digit_char(n));
        assert(old(s)@ + decimal(n as nat) =~= old(s)@.push(digit(n as nat)));
    }
}

/// The pointer to field `field` of item `i` of the array at `array`.
pub open spec fn item_pointer(array: Seq<char>, i: nat, field: Seq<char>) -> Seq<char> {
    array + seq!['/'] + decimal(i) + seq!['/'] + field
}

/// The pointer to field `field` of item `i` of the array at `array`.
pub fn item_pointer_of(array: &str, i: usize, field: &str) -> (r: String)
    ensures
        r@ == item_pointer(array@, i as nat, field@),
{
    let mut r = String::from_str(array);
    push_char(&mut r, '/');
    push_decimal(&mut r, i);
    push_char(&mut r, '/');
    r.append(field);
    r
}

} // verus!
