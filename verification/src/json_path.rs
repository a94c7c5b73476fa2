//! Values inside nested JSON objects.
use vstd::prelude::*;
use vstd::string::*;

use crate::json;
use crate::json::{Json, JsonView};

verus! {

/// The value that a path of field names leads to.
pub open spec fn at_path(value: JsonView, path: Seq<Seq<char>>) -> Option<JsonView>
    decreases path.len(),
{
    if path.len() == 0 {
        Some(value)
    } else {
        match value.get(path[0]) {
            Some(inner) => at_path(inner, path.drop_first()),
            None => None,
        }
    }
}

/// The items of the array that a path leads to; none where there is no array.
pub open spec fn nodes_at(value: JsonView, path: Seq<Seq<char>>) -> Seq<JsonView> {
    match at_path(value, path) {
        Some(inner) => inner.items(),
        None => Seq::empty(),
    }
}

pub fn get_path<'a>(value: &'a Json, path: &[&str]) -> (r: Option<&'a Json>)
    ensures
        match r {
            Some(inner) => at_path(value@, path.deep_view()) == Some(inner@),
            None => at_path(value@, path.deep_view()) is None,
        },
{
    let ghost keys = path.deep_view();
    let mut at = value;
    let mut i: usize = 0;
    assert(keys.skip(0) =~= keys);
    while i < path.len()
        invariant
            i <= path@.len(),
            keys == path.deep_view(),
            keys.len() == path@.len(),
            at_path(value@, keys) == at_path(at@, keys.skip(i as int)),
        decreases path@.len() - i,
    {
        assert(keys.skip(i as int)[0] == path@[i as int]@);
        assert(keys.skip(i as int).drop_first() =~= keys.skip(i + 1));
        match at.get(path[i]) {
            Some(inner) => {
                at = inner;
            },
            None => {
                return None;
            },
        }
        i += 1;
    }
    assert(keys.skip(i as int).len() == 0);
    Some(at)
}

/// Copies of the items of the array that a path leads to.
pub fn get_nodes(value: &Json, path: &[&str]) -> (r: Vec<Json>)
    ensures
        json::json_views(r@) == nodes_at(value@, path.deep_view()),
{
    match get_path(value, path) {
        Some(inner) => json::copy_all(inner.items()),
        None => {
            let none: Vec<Json> = Vec::new();
            assert(json::json_views(none@) =~= Seq::<JsonView>::empty());
            none
        },
    }
}

/// A longer path leads one field deeper than the path without its last name.
pub proof fn path_leads_one_field_deeper(value: JsonView, path: Seq<Seq<char>>, key: Seq<char>)
    ensures
        at_path(value, Seq::empty()) == Some(value),
        at_path(value, path.push(key)) == (match at_path(value, path) {
            Some(inner) => inner.get(key),
            None => None,
        }),
    decreases path.len(),
{
    let longer = path.push(key);
    if path.len() == 0 {
        assert(longer[0] == key);
        assert(longer.drop_first().len() == 0);
        match value.get(key) {
            Some(inner) => {
                assert(at_path(inner, longer.drop_first()) == Some(inner));
            },
            None => {},
        }
    } else {
        assert(longer[0] == path[0]);
        assert(longer.drop_first() =~= path.drop_first().push(key));
        match value.get(path[0]) {
            Some(inner) => {
                path_leads_one_field_deeper(inner, path.drop_first(), key);
            },
            None => {},
        }
    }
}

/// The nodes behind three names are the items of the value that the three fields lead to.
pub proof fn nodes_are_three_fields_deep(
    value: JsonView,
    a: Seq<char>,
    b: Seq<char>,
    c: Seq<char>,
)
    ensures
        nodes_at(value, seq![a, b, c]) == value.at(a).at(b).at(c).items(),
{
    let none = Seq::<Seq<char>>::empty();
    path_leads_one_field_deeper(value, none, a);
    path_leads_one_field_deeper(value, none.push(a), b);
    path_leads_one_field_deeper(value, none.push(a).push(b), c);
    assert(none.push(a).push(b).push(c) =~= seq![a, b, c]);
    assert(JsonView::Null.get(b) is None);
    assert(JsonView::Null.get(c) is None);
}

} // verus!
