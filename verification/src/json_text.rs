//! Reading and writing JSON texts with `serde_json`.
use vstd::prelude::*;

use crate::json::{Json, JsonNumber, JsonNumberView, JsonView};
use crate::text::comes_first;

verus! {

#[verifier::external_type_specification]
#[verifier::external_body]
pub struct ExValue(serde_json::Value);

#[verifier::external_type_specification]
#[verifier::external_body]
pub struct ExNumber(serde_json::Number);

/// The JSON value that a `serde_json::Value` holds, its object fields in the
/// order in which the map hands them out.
pub uninterp spec fn value_contents(value: serde_json::Value) -> JsonView;

/// The number that a `serde_json::Number` holds.
pub uninterp spec fn number_contents(number: serde_json::Number) -> JsonNumberView;

/// What `serde_json::from_str` makes of a text: a value, or the text of its error.
pub uninterp spec fn parsed_json(text: Seq<char>) -> Result<JsonView, Seq<char>>;

/// One level of a `serde_json::Value`.
pub enum ValueNode {
    Null,
    Bool(bool),
    Number(serde_json::Number),
    Text(String),
    Array(Vec<serde_json::Value>),
    Object(Vec<(String, serde_json::Value)>),
}

/// The JSON value of one level, over the contents of the levels below.
pub open spec fn node_contents(node: ValueNode) -> JsonView {
    match node {
        ValueNode::Null => JsonView::Null,
        ValueNode::Bool(b) => JsonView::Bool(b),
        ValueNode::Number(n) => JsonView::Number(number_contents(n)),
        ValueNode::Text(s) => JsonView::Text(s@),
        ValueNode::Array(items) => JsonView::Array(
            Seq::new(items@.len(), |i: int| value_contents(items@[i])),
        ),
        ValueNode::Object(fields) => JsonView::Object(
            Seq::new(fields@.len(), |i: int| (fields@[i].0@, value_contents(fields@[i].1))),
        ),
    }
}

/// `serde_json::from_str` into a `serde_json::Value`. Its result is the named
/// one: a value with those contents, or the text of the error where the text is
/// no JSON.
#[verifier::external_body]
fn read_value(text: &str) -> (r: Result<serde_json::Value, String>)
    ensures
        match r {
            Ok(value) => parsed_json(text@) == Ok::<JsonView, Seq<char>>(value_contents(value)),
            Err(fault) => parsed_json(text@) == Err::<JsonView, Seq<char>>(fault@),
        },
{
    serde_json::from_str(text).map_err(|fault| fault.to_string())
}

/// The variants of `serde_json::Value`, one for one; an object's fields are
/// handed out by the map's own iterator.
#[verifier::external_body]
fn open_value(value: serde_json::Value) -> (r: ValueNode)
    ensures
        node_contents(r) == value_contents(value),
{
    match value {
        serde_json::Value::Null => ValueNode::Null,
        serde_json::Value::Bool(b) => ValueNode::Bool(b),
        serde_json::Value::Number(n) => ValueNode::Number(n),
        serde_json::Value::String(s) => ValueNode::Text(s),
        serde_json::Value::Array(items) => ValueNode::Array(items),
        serde_json::Value::Object(fields) => ValueNode::Object(fields.into_iter().collect()),
    }
}

/// `serde_json::Number::as_u64`: the number, where it is an unsigned integer.
#[verifier::external_body]
fn number_u64(number: &serde_json::Number) -> (r: Option<u64>)
    ensures
        r == (match number_contents(*number) {
            JsonNumberView::Unsigned(n) => Some(n),
            _ => None,
        }),
{
    number.as_u64()
}

/// `serde_json::Number::as_i64`: the number, where it is an integer that fits.
#[verifier::external_body]
fn number_i64(number: &serde_json::Number) -> (r: Option<i64>)
    ensures
        r == (match number_contents(*number) {
            JsonNumberView::Unsigned(n) => if n <= i64::MAX {
                Some(n as i64)
            } else {
                None
            },
            JsonNumberView::Negative(n) => Some(n),
            JsonNumberView::Decimal(_) => None,
        }),
{
    number.as_i64()
}

/// `serde_json::Number::to_string`: the notation of a number that is no 64-bit
/// integer.
#[verifier::external_body]
fn number_text(number: &serde_json::Number) -> (r: String)
    ensures
        number_contents(*number) matches JsonNumberView::Decimal(s) ==> r@ == s,
{
    number.to_string()
}

fn number_from(number: &serde_json::Number) -> (r: JsonNumber)
    ensures
        r@ == number_contents(*number),
{
    match number_u64(number) {
        Some(n) => JsonNumber::Unsigned(n),
        None => match number_i64(number) {
            Some(n) => JsonNumber::Negative(n),
            None => JsonNumber::Decimal(number_text(number)),
        },
    }
}

/// The value that a `serde_json::Value` holds.
pub fn json_from_value(value: serde_json::Value) -> (r: Json)
    ensures
        r@ == value_contents(value),
    decreases value_contents(value),
{
    let ghost whole = value_contents(value);
    match open_value(value) {
        ValueNode::Null => Json::Null,
        ValueNode::Bool(b) => Json::Bool(b),
        ValueNode::Number(n) => Json::Number(number_from(&n)),
        ValueNode::Text(s) => Json::Text(s),
        ValueNode::Array(items) => {
            let ghost parts = whole->Array_0;
            let mut items = items;
            let ghost all = items@;
            let mut out: Vec<Json> = Vec::new();
            while items.len() > 0
                invariant
                    whole == value_contents(value),
                    whole is Array,
                    parts == whole->Array_0,
                    parts.len() == all.len(),
                    forall|k: int|
                        0 <= k < all.len() ==> #[trigger] parts[k] == value_contents(all[k]),
                    out@.len() + items@.len() == all.len(),
                    items@ == all.skip(out@.len() as int),
                    forall|k: int| 0 <= k < out@.len() ==> (#[trigger] out@[k])@ == parts[k],
                decreases items@.len(),
            {
                let ghost at = out@.len() as int;
                let item = items.remove(0);
                assert(item == all[at]);
                assert(decreases_to!(parts => parts[at]));
                assert(decreases_to!(whole => whole->Array_0));
                out.push(json_from_value(item));
                assert(items@ =~= all.skip(at + 1));
            }
            let r = Json::Array(out);
            assert(r@->Array_0 =~= parts);
            r
        },
        ValueNode::Object(fields) => {
            let ghost parts = whole->Object_0;
            let mut fields = fields;
            let ghost all = fields@;
            let mut out: Vec<(String, Json)> = Vec::new();
            while fields.len() > 0
                invariant
                    whole == value_contents(value),
                    whole is Object,
                    parts == whole->Object_0,
                    parts.len() == all.len(),
                    forall|k: int|
                        0 <= k < all.len() ==> #[trigger] parts[k] == (
                            all[k].0@,
                            value_contents(all[k].1),
                        ),
                    out@.len() + fields@.len() == all.len(),
                    fields@ == all.skip(out@.len() as int),
                    forall|k: int|
                        0 <= k < out@.len() ==> ((#[trigger] out@[k]).0@, out@[k].1@) == parts[k],
                decreases fields@.len(),
            {
                let ghost at = out@.len() as int;
                let (key, item) = fields.remove(0);
                assert((key, item) == all[at]);
                assert(decreases_to!(parts[at] => parts[at].1));
                assert(decreases_to!(parts => parts[at]));
                assert(decreases_to!(whole => whole->Object_0));
                out.push((key, json_from_value(item)));
                assert(fields@ =~= all.skip(at + 1));
            }
            let r = Json::Object(out);
            assert(r@->Object_0 =~= parts);
            r
        },
    }
}

/// The JSON value that a text is the notation of, or why it is none.
pub fn parse_json(text: &str) -> (r: Result<Json, String>)
    ensures
        match r {
            Ok(j) => parsed_json(text@) == Ok::<JsonView, Seq<char>>(j@),
            Err(fault) => parsed_json(text@) == Err::<JsonView, Seq<char>>(fault@),
        },
{
    match read_value(text) {
        Ok(value) => Ok(json_from_value(value)),
        Err(fault) => Err(fault),
    }
}

// ---------------------------------------------------------------------------
// Writing
// ---------------------------------------------------------------------------

/// The fields that a `serde_json::Map` hands out after it was made of fields.
pub uninterp spec fn map_fields(fields: Seq<(Seq<char>, JsonView)>) -> Seq<(Seq<char>, JsonView)>;

/// The number that `serde_json::Number::from_f64` makes of a decimal notation.
pub uninterp spec fn decimal_number(text: Seq<char>) -> Option<JsonNumberView>;

/// The text that `serde_json::Value::to_string` gives of a value.
pub uninterp spec fn json_notation(value: JsonView) -> Seq<char>;

/// The fields stand in the order of their keys, and no key stands twice.
pub open spec fn in_key_order(fields: Seq<(Seq<char>, JsonView)>) -> bool {
    forall|i: int, j: int|
        0 <= i < j < fields.len() ==> comes_first(
            (#[trigger] fields[i]).0,
            (#[trigger] fields[j]).0,
        ) && fields[i].0 != fields[j].0
}

/// One level is no object, or an object whose fields stand in the order of their
/// keys.
pub open spec fn in_order(node: ValueNode) -> bool {
    match node_contents(node) {
        JsonView::Object(fields) => in_key_order(fields),
        _ => true,
    }
}

/// The variants of `serde_json::Value`, one for one; an object's fields are
/// collected into a `serde_json::Map`, which keeps them as they are where they
/// come in the order of their keys.
#[verifier::external_body]
fn make_value(node: ValueNode) -> (r: serde_json::Value)
    ensures
        value_contents(r) == (match node_contents(node) {
            JsonView::Object(fields) => JsonView::Object(map_fields(fields)),
            other => other,
        }),
        in_order(node) ==> value_contents(r) == node_contents(node),
{
    match node {
        ValueNode::Null => serde_json::Value::Null,
        ValueNode::Bool(b) => serde_json::Value::Bool(b),
        ValueNode::Number(n) => serde_json::Value::Number(n),
        ValueNode::Text(s) => serde_json::Value::String(s),
        ValueNode::Array(items) => serde_json::Value::Array(items),
        ValueNode::Object(fields) => serde_json::Value::Object(fields.into_iter().collect()),
    }
}

/// `serde_json::Number::from` on a `u64`: the unsigned number.
#[verifier::external_body]
fn number_of_u64(n: u64) -> (r: serde_json::Number)
    ensures
        number_contents(r) == JsonNumberView::Unsigned(n),
{
    serde_json::Number::from(n)
}

/// `serde_json::Number::from` on an `i64`: an unsigned number where it is not
/// negative.
#[verifier::external_body]
fn number_of_i64(n: i64) -> (r: serde_json::Number)
    ensures
        number_contents(r) == signed_number(n),
{
    serde_json::Number::from(n)
}

/// `serde_json::Number::from_f64` on what a decimal notation stands for: the
/// named number, or none where the text is no notation of a finite number. That
/// a number's own notation gives the same number is left unsaid.
#[verifier::external_body]
fn number_of_text(text: &str) -> (r: Option<serde_json::Number>)
    ensures
        match r {
            Some(number) => decimal_number(text@) == Some(number_contents(number)),
            None => decimal_number(text@) is None,
        },
{
    text.parse().ok().and_then(serde_json::Number::from_f64)
}

/// `serde_json::Value::to_string`: the named text of the contents.
#[verifier::external_body]
fn value_text(value: &serde_json::Value) -> (r: String)
    ensures
        r@ == json_notation(value_contents(*value)),
{
    value.to_string()
}

pub open spec fn signed_number(n: i64) -> JsonNumberView {
    if n < 0 {
        JsonNumberView::Negative(n)
    } else {
        JsonNumberView::Unsigned(n as u64)
    }
}

/// The number that `serde_json` holds for a number; none where its notation is
/// that of no finite number.
pub open spec fn held_number(number: JsonNumberView) -> Option<JsonNumberView> {
    match number {
        JsonNumberView::Unsigned(n) => Some(JsonNumberView::Unsigned(n)),
        JsonNumberView::Negative(n) => Some(signed_number(n)),
        JsonNumberView::Decimal(s) => decimal_number(s),
    }
}

/// The value that `serde_json` holds for a value.
pub open spec fn held(json: JsonView) -> JsonView
    decreases json,
{
    match json {
        JsonView::Number(number) => match held_number(number) {
            Some(n) => JsonView::Number(n),
            None => JsonView::Null,
        },
        JsonView::Array(items) => JsonView::Array(
            Seq::new(
                items.len(),
                |i: int|
                    if 0 <= i < items.len() {
                        held(items[i])
                    } else {
                        JsonView::Null
                    },
            ),
        ),
        JsonView::Object(fields) => JsonView::Object(map_fields(held_fields(fields))),
        other => other,
    }
}

/// Fields with the values that `serde_json` holds for theirs.
pub open spec fn held_fields(fields: Seq<(Seq<char>, JsonView)>) -> Seq<(Seq<char>, JsonView)>
    decreases fields,
{
    Seq::new(
        fields.len(),
        |i: int|
            if 0 <= i < fields.len() {
                (fields[i].0, held(fields[i].1))
            } else {
                (Seq::<char>::empty(), JsonView::Null)
            },
    )
}

/// A value whose numbers are 64-bit integers and whose objects have their fields
/// in the order of their keys.
pub open spec fn is_plain(json: JsonView) -> bool
    decreases json,
{
    match json {
        JsonView::Number(number) => match number {
            JsonNumberView::Unsigned(_) => true,
            JsonNumberView::Negative(n) => n < 0,
            JsonNumberView::Decimal(_) => false,
        },
        JsonView::Array(items) => forall|i: int|
            0 <= i < items.len() ==> is_plain(#[trigger] items[i]),
        JsonView::Object(fields) => in_key_order(fields) && forall|i: int|
            0 <= i < fields.len() ==> is_plain((#[trigger] fields[i]).1),
        _ => true,
    }
}

fn number_of(number: &JsonNumber) -> (r: Option<serde_json::Number>)
    ensures
        match r {
            Some(n) => held_number(number@) == Some(number_contents(n)),
            None => held_number(number@) is None,
        },
{
    match number {
        JsonNumber::Unsigned(n) => Some(number_of_u64(*n)),
        JsonNumber::Negative(n) => Some(number_of_i64(*n)),
        JsonNumber::Decimal(s) => number_of_text(s.as_str()),
    }
}

/// A value as `serde_json` holds it: a plain value as it is.
pub fn value_of(json: &Json) -> (r: serde_json::Value)
    ensures
        value_contents(r) == held(json@),
        is_plain(json@) ==> value_contents(r) == json@,
    decreases json,
{
    let ghost whole = json@;
    match json {
        Json::Null => make_value(ValueNode::Null),
        Json::Bool(b) => make_value(ValueNode::Bool(*b)),
        Json::Number(number) => match number_of(number) {
            Some(n) => make_value(ValueNode::Number(n)),
            None => make_value(ValueNode::Null),
        },
        Json::Text(s) => make_value(ValueNode::Text(s.clone())),
        Json::Array(items) => {
            let mut out: Vec<serde_json::Value> = Vec::new();
            let mut i: usize = 0;
            while i < items.len()
                invariant
                    i <= items@.len(),
                    out@.len() == i,
                    *json == Json::Array(*items),
                    forall|k: int|
                        0 <= k < i ==> value_contents(#[trigger] out@[k]) == held(items@[k]@) && (
                        is_plain(items@[k]@) ==> value_contents(out@[k]) == items@[k]@),
                decreases items@.len() - i,
            {
                assert(decreases_to!(items@ => items@[i as int]));
                assert(decreases_to!(*items => items@));
                assert(decreases_to!(*json => json->Array_0));
                out.push(value_of(&items[i]));
                i += 1;
            }
            let node = ValueNode::Array(out);
            proof {
                let made = node_contents(node)->Array_0;
                assert(made =~= held(whole)->Array_0);
                if is_plain(whole) {
                    assert forall|k: int| 0 <= k < made.len() implies made[k]
                        == whole->Array_0[k] by {
                        assert(is_plain(whole->Array_0[k]));
                    }
                    assert(made =~= whole->Array_0);
                }
            }
            make_value(node)
        },
        Json::Object(fields) => {
            let mut out: Vec<(String, serde_json::Value)> = Vec::new();
            let mut i: usize = 0;
            while i < fields.len()
                invariant
                    i <= fields@.len(),
                    out@.len() == i,
                    *json == Json::Object(*fields),
                    forall|k: int|
                        0 <= k < i ==> (#[trigger] out@[k]).0@ == fields@[k].0@ && value_contents(
                            out@[k].1,
                        ) == held(fields@[k].1@) && (is_plain(fields@[k].1@) ==> value_contents(
                            out@[k].1,
                        ) == fields@[k].1@),
                decreases fields@.len() - i,
            {
                assert(decreases_to!(fields@[i as int] => fields@[i as int].1));
                assert(decreases_to!(fields@ => fields@[i as int]));
                assert(decreases_to!(*fields => fields@));
                assert(decreases_to!(*json => json->Object_0));
                out.push((fields[i].0.clone(), value_of(&fields[i].1)));
                i += 1;
            }
            let node = ValueNode::Object(out);
            proof {
                let parts = whole->Object_0;
                let made = node_contents(node)->Object_0;
                assert(made =~= held_fields(parts));
                if is_plain(whole) {
                    assert forall|k: int| 0 <= k < made.len() implies made[k] == parts[k] by {
                        assert(is_plain(parts[k].1));
                    }
                    assert(made =~= parts);
                }
            }
            make_value(node)
        },
    }
}

/// The compact notation of a value.
pub fn notation(json: &Json) -> (r: String)
    ensures
        r@ == json_notation(held(json@)),
        is_plain(json@) ==> r@ == json_notation(json@),
{
    value_text(&value_of(json))
}

/// What is held for a value is a value of the same kind: texts and booleans are held as they
/// are, integers too, and arrays item by item.
pub proof fn values_are_held_as_they_are(
    s: Seq<char>,
    b: bool,
    n: u64,
    negative: i64,
    items: Seq<JsonView>,
    i: int,
)
    requires
        negative < 0,
    ensures
        held(JsonView::Null) == JsonView::Null,
        held(JsonView::Bool(b)) == JsonView::Bool(b),
        held(JsonView::Text(s)) == JsonView::Text(s),
        held(JsonView::Number(JsonNumberView::Unsigned(n))) == JsonView::Number(
            JsonNumberView::Unsigned(n),
        ),
        held(JsonView::Number(JsonNumberView::Negative(negative))) == JsonView::Number(
            JsonNumberView::Negative(negative),
        ),
        held(JsonView::Array(items)) is Array,
        held(JsonView::Array(items))->Array_0.len() == items.len(),
        0 <= i < items.len() ==> held(JsonView::Array(items))->Array_0[i] == held(items[i]),
        held_fields(seq![(s, JsonView::Bool(b))]) == seq![(s, JsonView::Bool(b))],
{
    reveal_with_fuel(held, 2);
    assert(held_fields(seq![(s, JsonView::Bool(b))]) =~= seq![(s, JsonView::Bool(b))]);
}


} // verus!
