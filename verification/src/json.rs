//! JSON values: the data that is read from responses and sent in requests.
use vstd::prelude::*;
use vstd::string::*;

use crate::text::same_text;

verus! {

/// A JSON number: an integer that fits in 64 bits, or any other number in its
/// decimal notation.
#[derive(Debug, PartialEq)]
pub enum JsonNumber {
    Unsigned(u64),
    Negative(i64),
    Decimal(String),
}

#[verifier::ext_equal]
pub enum JsonNumberView {
    Unsigned(u64),
    Negative(i64),
    Decimal(Seq<char>),
}

impl View for JsonNumber {
    type V = JsonNumberView;

    open spec fn view(&self) -> JsonNumberView {
        match self {
            JsonNumber::Unsigned(n) => JsonNumberView::Unsigned(*n),
            JsonNumber::Negative(n) => JsonNumberView::Negative(*n),
            JsonNumber::Decimal(s) => JsonNumberView::Decimal(s@),
        }
    }
}

/// A copy of a number.
pub fn copy_number(number: &JsonNumber) -> (r: JsonNumber)
    ensures
        r@ == number@,
{
    match number {
        JsonNumber::Unsigned(n) => JsonNumber::Unsigned(*n),
        JsonNumber::Negative(n) => JsonNumber::Negative(*n),
        JsonNumber::Decimal(s) => JsonNumber::Decimal(s.clone()),
    }
}

/// A JSON value. An object keeps its fields in the order of insertion.
#[derive(Debug, PartialEq)]
pub enum Json {
    Null,
    Bool(bool),
    Number(JsonNumber),
    Text(String),
    Array(Vec<Json>),
    Object(Vec<(String, Json)>),
}

#[verifier::ext_equal]
pub enum JsonView {
    Null,
    Bool(bool),
    Number(JsonNumberView),
    Text(Seq<char>),
    Array(Seq<JsonView>),
    Object(Seq<(Seq<char>, JsonView)>),
}

pub open spec fn json_view(j: Json) -> JsonView
    decreases j,
{
    match j {
        Json::Null => JsonView::Null,
        Json::Bool(b) => JsonView::Bool(b),
        Json::Number(n) => JsonView::Number(n@),
        Json::Text(s) => JsonView::Text(s@),
        Json::Array(items) => JsonView::Array(
            Seq::new(
                items@.len(),
                |i: int|
                    if 0 <= i < items@.len() {
                        json_view(items@[i])
                    } else {
                        JsonView::Null
                    },
            ),
        ),
        Json::Object(fields) => JsonView::Object(
            Seq::new(
                fields@.len(),
                |i: int|
                    if 0 <= i < fields@.len() {
                        (fields@[i].0@, json_view(fields@[i].1))
                    } else {
                        (Seq::<char>::empty(), JsonView::Null)
                    },
            ),
        ),
    }
}

impl View for Json {
    type V = JsonView;

    open spec fn view(&self) -> JsonView {
        json_view(*self)
    }
}

impl DeepView for Json {
    type V = JsonView;

    open spec fn deep_view(&self) -> JsonView {
        self@
    }
}

/// The values that a sequence of JSON values stands for.
pub open spec fn json_views(items: Seq<Json>) -> Seq<JsonView> {
    Seq::new(items.len(), |i: int| items[i]@)
}

/// The position of the first field with a given key.
pub open spec fn field_index(fields: Seq<(Seq<char>, JsonView)>, key: Seq<char>) -> Option<int>
    decreases fields.len(),
{
    if fields.len() == 0 {
        None
    } else if fields[0].0 == key {
        Some(0)
    } else {
        match field_index(fields.drop_first(), key) {
            Some(i) => Some(i + 1),
            None => None,
        }
    }
}

impl JsonView {
    /// The value of a field, if this is an object that has it.
    pub open spec fn get(self, key: Seq<char>) -> Option<JsonView> {
        match self {
            JsonView::Object(fields) => match field_index(fields, key) {
                Some(i) => Some(fields[i].1),
                None => None,
            },
            _ => None,
        }
    }

    /// The value of a field, or null where there is none.
    pub open spec fn at(self, key: Seq<char>) -> JsonView {
        match self.get(key) {
            Some(j) => j,
            None => JsonView::Null,
        }
    }

    pub open spec fn as_str(self) -> Option<Seq<char>> {
        match self {
            JsonView::Text(s) => Some(s),
            _ => None,
        }
    }

    pub open spec fn text_or(self, default: Seq<char>) -> Seq<char> {
        match self {
            JsonView::Text(s) => s,
            _ => default,
        }
    }

    pub open spec fn as_bool(self) -> Option<bool> {
        match self {
            JsonView::Bool(b) => Some(b),
            _ => None,
        }
    }

    pub open spec fn is_true(self) -> bool {
        self == JsonView::Bool(true)
    }

    pub open spec fn as_u64(self) -> Option<u64> {
        match self {
            JsonView::Number(JsonNumberView::Unsigned(n)) => Some(n),
            _ => None,
        }
    }

    pub open spec fn as_i64(self) -> Option<i64> {
        match self {
            JsonView::Number(JsonNumberView::Unsigned(n)) => if n <= i64::MAX {
                Some(n as i64)
            } else {
                None
            },
            JsonView::Number(JsonNumberView::Negative(n)) => Some(n),
            _ => None,
        }
    }

    /// The items of an array, and none of any other value.
    pub open spec fn items(self) -> Seq<JsonView> {
        match self {
            JsonView::Array(items) => items,
            _ => Seq::empty(),
        }
    }

    pub open spec fn object() -> JsonView {
        JsonView::Object(Seq::empty())
    }

    /// The object with one field set; any other value becomes an object.
    pub open spec fn with(self, key: Seq<char>, value: JsonView) -> JsonView {
        match self {
            JsonView::Object(fields) => match field_index(fields, key) {
                Some(i) => JsonView::Object(fields.update(i, (key, value))),
                None => JsonView::Object(fields.push((key, value))),
            },
            _ => JsonView::Object(seq![(key, value)]),
        }
    }

    /// The object with one text field set where there is a text, else unchanged.
    pub open spec fn with_some(self, key: Seq<char>, value: Option<Seq<char>>) -> JsonView {
        match value {
            Some(s) => self.with(key, JsonView::Text(s)),
            None => self,
        }
    }

    pub open spec fn opt_text(value: Option<Seq<char>>) -> JsonView {
        match value {
            Some(s) => JsonView::Text(s),
            None => JsonView::Null,
        }
    }

    pub open spec fn integer(n: i64) -> JsonView {
        if n < 0 {
            JsonView::Number(JsonNumberView::Negative(n))
        } else {
            JsonView::Number(JsonNumberView::Unsigned(n as u64))
        }
    }

    pub open spec fn texts(items: Seq<Seq<char>>) -> JsonView {
        JsonView::Array(Seq::new(items.len(), |i: int| JsonView::Text(items[i])))
    }

    pub open spec fn is_empty_object(self) -> bool {
        self matches JsonView::Object(fields) && fields.len() == 0
    }
}

/// What a field index says: the key stands there, and nowhere before.
pub proof fn field_index_is_first(fields: Seq<(Seq<char>, JsonView)>, key: Seq<char>)
    ensures
        match field_index(fields, key) {
            Some(i) => 0 <= i < fields.len() && fields[i].0 == key && forall|k: int|
                0 <= k < i ==> (#[trigger] fields[k]).0 != key,
            None => forall|k: int| 0 <= k < fields.len() ==> (#[trigger] fields[k]).0 != key,
        },
    decreases fields.len(),
{
    if fields.len() > 0 && fields[0].0 != key {
        let rest = fields.drop_first();
        field_index_is_first(rest, key);
        assert(forall|k: int| 0 < k < fields.len() ==> #[trigger] fields[k] == rest[k - 1]);
    }
}

/// A field that was set is read back, and every other field stays as it was.
pub proof fn field_set_is_read_back(
    object: JsonView,
    key: Seq<char>,
    value: JsonView,
    other: Seq<char>,
)
    requires
        object is Object,
    ensures
        object.with(key, value).get(key) == Some(value),
        other != key ==> object.with(key, value).get(other) == object.get(other),
{
    let fields = object->Object_0;
    let after = object.with(key, value)->Object_0;
    field_index_is_first(fields, key);
    field_index_is_first(fields, other);
    field_index_is_first(after, key);
    field_index_is_first(after, other);
    match field_index(fields, key) {
        Some(i) => {
            assert(after[i].0 == key);
            assert(forall|k: int| 0 <= k < i ==> #[trigger] after[k] == fields[k]);
        },
        None => {
            assert(after[fields.len() as int].0 == key);
            assert(forall|k: int| 0 <= k < fields.len() ==> #[trigger] after[k] == fields[k]);
        },
    }
    if other != key {
        assert(forall|k: int|
            0 <= k < fields.len() ==> ((#[trigger] after[k]).0 == other <==> fields[k].0 == other));
        match field_index(fields, other) {
            Some(i) => {
                assert(after[i] == fields[i]);
                assert(after[i].0 == other);
                let k = field_index(after, other)->0;
                assert(after[k].0 == other);
                if k < i {
                    assert(fields[k].0 != other);
                }
            },
            None => {
                if field_index(after, other) is Some {
                    let k = field_index(after, other)->0;
                    assert(k < fields.len() ==> fields[k].0 != other);
                }
            },
        }
    }
}

/// A field that was set is read back, whatever the value was before.
pub broadcast proof fn set_field_is_read(value: JsonView, key: Seq<char>, inner: JsonView)
    ensures
        (#[trigger] value.with(key, inner).get(key)) == Some(inner),
{
    if value is Object {
        field_set_is_read_back(value, key, inner, key);
    } else {
        assert(value.with(key, inner)->Object_0[0].0 == key);
    }
}

/// A field stays as it was when another one is set.
pub broadcast proof fn other_field_stays(
    object: JsonView,
    key: Seq<char>,
    inner: JsonView,
    other: Seq<char>,
)
    requires
        object is Object,
        other != key,
    ensures
        (#[trigger] object.with(key, inner).get(other)) == object.get(other),
{
    field_set_is_read_back(object, key, inner, other);
}

/// The empty object has no field.
pub broadcast proof fn empty_object_has_no_field(key: Seq<char>)
    ensures
        (#[trigger] JsonView::object().get(key)) is None,
{
}

pub broadcast group group_fields {
    set_field_is_read,
    other_field_stays,
    empty_object_has_no_field,
}

/// An object with a field set has that field, and no fewer than before.
pub proof fn object_with_field_is_not_empty(object: JsonView, key: Seq<char>, value: JsonView)
    requires
        object is Object,
    ensures
        object.with(key, value) is Object,
        object.with(key, value)->Object_0.len() >= object->Object_0.len(),
        !object.with(key, value).is_empty_object(),
{
    field_index_is_first(object->Object_0, key);
}

fn find_field(fields: &Vec<(String, Json)>, key: &str) -> (r: Option<usize>)
    ensures
        match r {
            Some(i) => i < fields@.len() && field_index(
                json_view(Json::Object(*fields))->Object_0,
                key@,
            ) == Some(i as int),
            None => field_index(json_view(Json::Object(*fields))->Object_0, key@) is None,
        },
{
    let ghost all = json_view(Json::Object(*fields))->Object_0;
    let mut i: usize = 0;
    assert(all.skip(0) =~= all);
    while i < fields.len()
        invariant
            i <= fields@.len(),
            all.len() == fields@.len(),
            all == json_view(Json::Object(*fields))->Object_0,
            forall|k: int|
                0 <= k < all.len() ==> #[trigger] all[k] == (fields@[k].0@, fields@[k].1@),
            field_index(all, key@) == (match field_index(all.skip(i as int), key@) {
                Some(k) => Some(k + i as int),
                None => None::<int>,
            }),
        decreases fields@.len() - i,
    {
        assert(all.skip(i as int)[0] == all[i as int]);
        if same_text(fields[i].0.as_str(), key) {
            return Some(i);
        }
        assert(all.skip(i as int).drop_first() =~= all.skip(i + 1));
        i += 1;
    }
    None
}

impl Json {
    pub fn get(&self, key: &str) -> (r: Option<&Json>)
        ensures
            match r {
                Some(j) => self@.get(key@) == Some(j@),
                None => self@.get(key@) is None,
            },
    {
        match self {
            Json::Object(fields) => match find_field(fields, key) {
                Some(i) => Some(&fields[i].1),
                None => None,
            },
            _ => None,
        }
    }

    pub fn at(&self, key: &str) -> (r: &Json)
        ensures
            r@ == self@.at(key@),
    {
        match self.get(key) {
            Some(j) => j,
            None => &Json::Null,
        }
    }

    pub fn as_str(&self) -> (r: Option<&str>)
        ensures
            r.deep_view() == self@.as_str(),
    {
        match self {
            Json::Text(s) => Some(s.as_str()),
            _ => None,
        }
    }

    pub fn as_text(&self) -> (r: Option<String>)
        ensures
            r.deep_view() == self@.as_str(),
    {
        match self {
            Json::Text(s) => Some(s.clone()),
            _ => None,
        }
    }

    pub fn text_or(&self, default: &str) -> (r: String)
        ensures
            r@ == self@.text_or(default@),
    {
        match self {
            Json::Text(s) => s.clone(),
            _ => default.to_string(),
        }
    }

    pub fn as_bool(&self) -> (r: Option<bool>)
        ensures
            r == self@.as_bool(),
    {
        match self {
            Json::Bool(b) => Some(*b),
            _ => None,
        }
    }

    pub fn is_true(&self) -> (r: bool)
        ensures
            r == self@.is_true(),
    {
        match self {
            Json::Bool(b) => *b,
            _ => false,
        }
    }

    pub fn is_null(&self) -> (r: bool)
        ensures
            r == (self@ is Null),
    {
        match self {
            Json::Null => true,
            _ => false,
        }
    }

    pub fn as_u64(&self) -> (r: Option<u64>)
        ensures
            r == self@.as_u64(),
    {
        match self {
            Json::Number(JsonNumber::Unsigned(n)) => Some(*n),
            _ => None,
        }
    }

    pub fn as_i64(&self) -> (r: Option<i64>)
        ensures
            r == self@.as_i64(),
    {
        match self {
            Json::Number(JsonNumber::Unsigned(n)) => if *n <= i64::MAX as u64 {
                Some(*n as i64)
            } else {
                None
            },
            Json::Number(JsonNumber::Negative(n)) => Some(*n),
            _ => None,
        }
    }

    /// The items of an array; none of any other value.
    pub fn items(&self) -> (r: &[Json])
        ensures
            json_views(r@) == self@.items(),
    {
        match self {
            Json::Array(items) => {
                assert(json_views(items@) =~= self@.items());
                items.as_slice()
            },
            _ => {
                let none: &[Json] = &[];
                assert(json_views(none@) =~= self@.items());
                none
            },
        }
    }

    pub fn is_array(&self) -> (r: bool)
        ensures
            r == (self@ is Array),
    {
        match self {
            Json::Array(_) => true,
            _ => false,
        }
    }

    pub fn is_object(&self) -> (r: bool)
        ensures
            r == (self@ is Object),
    {
        match self {
            Json::Object(_) => true,
            _ => false,
        }
    }

    pub fn is_empty_object(&self) -> (r: bool)
        ensures
            r == self@.is_empty_object(),
    {
        match self {
            Json::Object(fields) => fields.len() == 0,
            _ => false,
        }
    }

    /// An object without fields.
    pub fn object() -> (r: Json)
        ensures
            r@ == JsonView::object(),
    {
        let r = Json::Object(Vec::new());
        assert(r@->Object_0 =~= Seq::empty());
        r
    }

    pub fn text(s: &str) -> (r: Json)
        ensures
            r@ == JsonView::Text(s@),
    {
        Json::Text(s.to_string())
    }

    pub fn number(n: u64) -> (r: Json)
        ensures
            r@ == JsonView::Number(JsonNumberView::Unsigned(n)),
    {
        Json::Number(JsonNumber::Unsigned(n))
    }

    pub fn integer(n: i64) -> (r: Json)
        ensures
            r@ == JsonView::integer(n),
    {
        if n < 0 {
            Json::Number(JsonNumber::Negative(n))
        } else {
            Json::Number(JsonNumber::Unsigned(n as u64))
        }
    }

    pub fn opt_text(s: &Option<String>) -> (r: Json)
        ensures
            r@ == JsonView::opt_text(s.deep_view()),
    {
        match s {
            Some(s) => Json::Text(s.clone()),
            None => Json::Null,
        }
    }

    /// An array of texts.
    pub fn texts(items: &Vec<String>) -> (r: Json)
        ensures
            r@ == JsonView::texts(items.deep_view()),
    {
        let mut out: Vec<Json> = Vec::new();
        let mut i: usize = 0;
        while i < items.len()
            invariant
                i <= items@.len(),
                out@.len() == i,
                forall|k: int| 0 <= k < i ==> (#[trigger] out@[k])@ == JsonView::Text(items@[k]@),
            decreases items@.len() - i,
        {
            out.push(Json::Text(items[i].clone()));
            i += 1;
        }
        let r = Json::Array(out);
        assert(r@->Array_0 =~= JsonView::texts(items.deep_view())->Array_0);
        r
    }

    /// An array of values.
    pub fn array(items: Vec<Json>) -> (r: Json)
        ensures
            r@ == JsonView::Array(json_views(items@)),
    {
        let r = Json::Array(items);
        assert(r@->Array_0 =~= json_views(items@));
        r
    }

    /// Sets one field of an object; any other value becomes an object.
    pub fn with(self, key: &str, value: Json) -> (r: Json)
        ensures
            r@ == self@.with(key@, value@),
    {
        match self {
            Json::Object(fields) => {
                let mut fields = fields;
                let ghost before = self@->Object_0;
                match find_field(&fields, key) {
                    Some(i) => {
                        fields.set(i, (key.to_string(), value));
                        let r = Json::Object(fields);
                        assert(r@->Object_0 =~= before.update(i as int, (key@, value@)));
                        r
                    },
                    None => {
                        fields.push((key.to_string(), value));
                        let r = Json::Object(fields);
                        assert(r@->Object_0 =~= before.push((key@, value@)));
                        r
                    },
                }
            },
            _ => {
                let mut fields: Vec<(String, Json)> = Vec::new();
                fields.push((key.to_string(), value));
                let r = Json::Object(fields);
                assert(r@->Object_0 =~= seq![(key@, value@)]);
                r
            },
        }
    }

    /// Sets one text field where there is a text.
    pub fn with_some(self, key: &str, value: &Option<String>) -> (r: Json)
        ensures
            r@ == self@.with_some(key@, value.deep_view()),
    {
        match value {
            Some(s) => self.with(key, Json::Text(s.clone())),
            None => self,
        }
    }

    /// A copy of the value.
    pub fn copy(&self) -> (r: Json)
        ensures
            r@ == self@,
        decreases self,
    {
        match self {
            Json::Null => Json::Null,
            Json::Bool(b) => Json::Bool(*b),
            Json::Number(JsonNumber::Unsigned(n)) => Json::Number(JsonNumber::Unsigned(*n)),
            Json::Number(JsonNumber::Negative(n)) => Json::Number(JsonNumber::Negative(*n)),
            Json::Number(JsonNumber::Decimal(s)) => Json::Number(JsonNumber::Decimal(s.clone())),
            Json::Text(s) => Json::Text(s.clone()),
            Json::Array(items) => {
                let mut out: Vec<Json> = Vec::new();
                let mut i: usize = 0;
                while i < items.len()
                    invariant
                        i <= items@.len(),
                        out@.len() == i,
                        *self == Json::Array(*items),
                        forall|k: int| 0 <= k < i ==> (#[trigger] out@[k])@ == items@[k]@,
                    decreases items@.len() - i,
                {
                    assert(decreases_to!(items@ => items@[i as int]));
                    assert(decreases_to!(*items => items@));
                    assert(decreases_to!(*self => self->Array_0));
                    out.push(items[i].copy());
                    i += 1;
                }
                let r = Json::Array(out);
                assert(r@->Array_0 =~= self@->Array_0);
                r
            },
            Json::Object(fields) => {
                let mut out: Vec<(String, Json)> = Vec::new();
                let mut i: usize = 0;
                while i < fields.len()
                    invariant
                        i <= fields@.len(),
                        out@.len() == i,
                        *self == Json::Object(*fields),
                        forall|k: int|
                            0 <= k < i ==> (#[trigger] out@[k]).0@ == fields@[k].0@ && out@[k].1@
                                == fields@[k].1@,
                    decreases fields@.len() - i,
                {
                    assert(decreases_to!(fields@[i as int] => fields@[i as int].1));
                    assert(decreases_to!(fields@ => fields@[i as int]));
                    assert(decreases_to!(*fields => fields@));
                    assert(decreases_to!(*self => self->Object_0));
                    out.push((fields[i].0.clone(), fields[i].1.copy()));
                    i += 1;
                }
                let r = Json::Object(out);
                assert(r@->Object_0 =~= self@->Object_0);
                r
            },
        }
    }
}

impl Clone for Json {
    fn clone(&self) -> (r: Json)
        ensures
            r@ == self@,
    {
        self.copy()
    }
}

/// Copies of a run of values.
pub fn copy_all(items: &[Json]) -> (r: Vec<Json>)
    ensures
        json_views(r@) == json_views(items@),
{
    let mut out: Vec<Json> = Vec::new();
    let mut i: usize = 0;
    while i < items.len()
        invariant
            i <= items@.len(),
            out@.len() == i,
            forall|k: int| 0 <= k < i ==> (#[trigger] out@[k])@ == items@[k]@,
        decreases items@.len() - i,
    {
        out.push(items[i].copy());
        i += 1;
    }
    assert(json_views(out@) =~= json_views(items@));
    out
}

/// The texts in a field of each of some values, in order; a value without one is
/// passed over.
pub open spec fn texts_at(items: Seq<JsonView>, key: Seq<char>) -> Seq<Seq<char>>
    decreases items.len(),
{
    if items.len() == 0 {
        Seq::empty()
    } else {
        let before = texts_at(items.drop_last(), key);
        match items.last().at(key).as_str() {
            Some(s) => before.push(s),
            None => before,
        }
    }
}

pub fn collect_texts_at(items: &[Json], key: &str) -> (r: Vec<String>)
    ensures
        r.deep_view() == texts_at(json_views(items@), key@),
{
    let ghost all = json_views(items@);
    let mut out: Vec<String> = Vec::new();
    let mut i: usize = 0;
    assert(all.take(0).len() == 0);
    assert(out.deep_view() =~= texts_at(all.take(0), key@));
    while i < items.len()
        invariant
            i <= items@.len(),
            all == json_views(items@),
            out.deep_view() == texts_at(all.take(i as int), key@),
        decreases items@.len() - i,
    {
        assert(all.take(i + 1).drop_last() =~= all.take(i as int));
        assert(all.take(i + 1).last() == items@[i as int]@);
        let ghost before = out.deep_view();
        match items[i].at(key).as_text() {
            Some(s) => {
                out.push(s);
                assert(out.deep_view() =~= before.push(s@));
            },
            None => {},
        }
        i += 1;
    }
    assert(all.take(i as int) =~= all);
    out
}

/// The texts in a field of values are those of the values that have one, in their order.
pub proof fn texts_at_follow_the_items(items: Seq<JsonView>, item: JsonView, key: Seq<char>)
    ensures
        texts_at(Seq::empty(), key).len() == 0,
        item.at(key) is Text ==> texts_at(items.push(item), key) == texts_at(items, key).push(
            item.at(key)->Text_0,
        ),
        !(item.at(key) is Text) ==> texts_at(items.push(item), key) == texts_at(items, key),
{
    assert(items.push(item).drop_last() =~= items);
}

/// A text in the field of one of some values is among the texts, and no other text is.
pub proof fn texts_at_are_those_of_the_items(items: Seq<JsonView>, key: Seq<char>, s: Seq<char>)
    ensures
        texts_at(items, key).contains(s) <==> exists|i: int|
            0 <= i < items.len() && (#[trigger] items[i]).at(key) == JsonView::Text(s),
    decreases items.len(),
{
    let all = texts_at(items, key);
    if items.len() == 0 {
        if all.contains(s) {
            let k = choose|k: int| 0 <= k < all.len() && all[k] == s;
        }
    } else {
        let rest = items.drop_last();
        let before = texts_at(rest, key);
        texts_at_are_those_of_the_items(rest, key, s);
        if all.contains(s) {
            let k = choose|k: int| 0 <= k < all.len() && all[k] == s;
            if k < before.len() {
                assert(before[k] == s);
                let i = choose|i: int|
                    0 <= i < rest.len() && (#[trigger] rest[i]).at(key) == JsonView::Text(s);
                assert(items[i].at(key) == JsonView::Text(s));
            } else {
                assert(items[items.len() - 1].at(key) == JsonView::Text(s));
            }
        }
        if exists|i: int|
            0 <= i < items.len() && (#[trigger] items[i]).at(key) == JsonView::Text(s) {
            let i = choose|i: int|
                0 <= i < items.len() && (#[trigger] items[i]).at(key) == JsonView::Text(s);
            if i < rest.len() {
                assert(rest[i].at(key) == JsonView::Text(s));
                let k = choose|k: int| 0 <= k < before.len() && before[k] == s;
                assert(all[k] == s);
            } else {
                assert(all[all.len() - 1] == s);
            }
        }
    }
}

/// Different texts, and different lists of texts, are different values.
pub proof fn texts_are_told_apart(a: Seq<Seq<char>>, b: Seq<Seq<char>>)
    ensures
        JsonView::texts(a) == JsonView::texts(b) ==> a == b,
        JsonView::texts(a).items().len() == a.len(),
        forall|i: int|
            0 <= i < a.len() ==> #[trigger] JsonView::texts(a).items()[i] == JsonView::Text(a[i]),
{
    if JsonView::texts(a) == JsonView::texts(b) {
        let x = JsonView::texts(a)->Array_0;
        let y = JsonView::texts(b)->Array_0;
        assert(x.len() == a.len() && y.len() == b.len());
        assert forall|i: int| 0 <= i < a.len() implies a[i] == b[i] by {
            assert(x[i] == JsonView::Text(a[i]));
            assert(y[i] == JsonView::Text(b[i]));
        }
        assert(a =~= b);
    }
}

/// Reading a value gives what it holds, and nothing of another kind.
pub proof fn values_are_read_as_what_they_are(
    text: Seq<char>,
    number: i64,
    flag: bool,
    items: Seq<JsonView>,
)
    ensures
        JsonView::Text(text).as_str() == Some(text),
        JsonView::Text(text).text_or(""@) == text,
        JsonView::Null.as_str() is None,
        JsonView::Null.text_or(text) == text,
        JsonView::integer(number).as_i64() == Some(number),
        JsonView::integer(number).as_str() is None,
        number >= 0 ==> JsonView::integer(number).as_u64() == Some(number as u64),
        JsonView::Bool(flag).as_bool() == Some(flag),
        JsonView::Bool(flag).is_true() <==> flag,
        JsonView::Array(items).items() == items,
        JsonView::Null.items().len() == 0,
        JsonView::opt_text(Some(text)) == JsonView::Text(text),
        JsonView::opt_text(None) == JsonView::Null,
{
}

} // verus!
