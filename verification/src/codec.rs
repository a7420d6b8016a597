//! JSON values as text, read and written by `serde_json`.

use vstd::prelude::*;

use crate::json::{
    field_views, item_views, json_array, json_object, lemma_array_view, lemma_object_view, viewed,
    Json, JsonView, Number, NumberView,
};
use crate::table::{
    distinct_keys, first_position, firsts, has_key, lemma_first_entry, lemma_firsts,
    lemma_lookup_has_key, lemma_same_entries, lookup,
};

verus! {

/// A JSON value of `serde_json`.
#[verifier::external_type_specification]
#[verifier::external_body]
pub struct ExValue(serde_json::Value);

/// What a `serde_json::Value` holds: the fields of an object in the order in which its map gives
/// them, and a number that is no integer as the text that it is printed as.
pub uninterp spec fn value_json(value: serde_json::Value) -> JsonView;

/// What `serde_json::from_str` reads in a text.
pub uninterp spec fn parsed_json(text: Seq<char>) -> Option<JsonView>;

/// What `serde_json::to_string` writes for a value.
pub uninterp spec fn printed_json(value: JsonView) -> Option<Seq<char>>;

/// What a `serde_json::Map` holds into which these fields were put, in its order: the fields of
/// which it is stated have no key twice.
pub uninterp spec fn map_fields(fields: Seq<(Seq<char>, JsonView)>) -> Seq<(Seq<char>, JsonView)>;

/// The number that `serde_json::Number::from_f64` makes of the double that a text writes, or
/// `null` where there is none.
pub uninterp spec fn real_json(text: Seq<char>) -> JsonView;

/// A value of `serde_json`, one level of it taken apart.
pub enum Shape {
    Null,
    Bool(bool),
    Number(Number),
    Text(String),
    Array(Vec<serde_json::Value>),
    Object(Vec<(String, serde_json::Value)>),
}

/// What the values of an array hold.
pub open spec fn value_items(values: Seq<serde_json::Value>) -> Seq<JsonView> {
    values.map_values(|value: serde_json::Value| value_json(value))
}

/// What the fields of an object hold.
pub open spec fn value_fields(fields: Seq<(String, serde_json::Value)>) -> Seq<
    (Seq<char>, JsonView),
> {
    fields.map_values(|field: (String, serde_json::Value)| (field.0@, value_json(field.1)))
}

impl View for Shape {
    type V = JsonView;

    open spec fn view(&self) -> JsonView {
        match self {
            Shape::Null => JsonView::Null,
            Shape::Bool(b) => JsonView::Bool(*b),
            Shape::Number(n) => JsonView::Number(n@),
            Shape::Text(text) => JsonView::Text(text@),
            Shape::Array(values) => JsonView::Array(value_items(values@)),
            Shape::Object(fields) => JsonView::Object(value_fields(fields@)),
        }
    }
}

/// `serde_json::from_str` into a `serde_json::Value`: what it reads, or that it reads nothing,
/// depends on the text alone.
#[verifier::external_body]
fn parse_value(text: &str) -> (r: Option<serde_json::Value>)
    ensures
        match r {
            Some(value) => parsed_json(text@) == Some(value_json(value)),
            None => parsed_json(text@) is None,
        },
{
    serde_json::from_str::<serde_json::Value>(text).ok()
}

/// `serde_json::to_string` of a `serde_json::Value`: what it writes depends on what the value holds
/// alone.
#[verifier::external_body]
pub(crate) fn print_value(value: &serde_json::Value) -> (r: Option<String>)
    ensures
        viewed(r) == printed_json(value_json(*value)),
{
    serde_json::to_string(value).ok()
}

/// Tells the variants of a `serde_json::Value` apart: what it holds comes out as it is. The map of
/// an object has no key twice.
#[verifier::external_body]
fn value_shape(value: serde_json::Value) -> (r: Shape)
    ensures
        r@ == value_json(value),
        r@ is Object ==> distinct_keys(r@->Object_0),
{
    match value {
        serde_json::Value::Null => Shape::Null,
        serde_json::Value::Bool(b) => Shape::Bool(b),
        serde_json::Value::Number(n) => Shape::Number(match (n.as_u64(), n.as_i64()) {
            (Some(unsigned), _) => Number::Unsigned(unsigned),
            (_, Some(negative)) => Number::Negative(negative),
            _ => Number::Real(n.to_string()),
        }),
        serde_json::Value::String(text) => Shape::Text(text),
        serde_json::Value::Array(values) => Shape::Array(values),
        serde_json::Value::Object(map) => Shape::Object(map.into_iter().collect()),
    }
}

/// Makes a `serde_json::Value` of its parts. The map of an object, of whose fields no two have the
/// same key, keeps every field, in an order that depends on the fields alone. Which double a text
/// writes depends on the text alone, and where it writes none the value is `null`. Anything else is
/// held as it is.
#[verifier::external_body]
pub(crate) fn shape_value(shape: Shape) -> (r: serde_json::Value)
    requires
        shape@ is Object ==> distinct_keys(shape@->Object_0),
    ensures
        shape@ is Object ==> distinct_keys(value_json(r)->Object_0)
            && value_json(r)->Object_0.to_multiset() == shape@->Object_0.to_multiset(),
        shape@ is Number ==> value_json(r) is Number || value_json(r) is Null,
        match shape@ {
            JsonView::Object(fields) => value_json(r) == JsonView::Object(map_fields(fields)),
            JsonView::Number(NumberView::Real(text)) => value_json(r) == real_json(text),
            plain => value_json(r) == plain,
        },
{
    match shape {
        Shape::Null => serde_json::Value::Null,
        Shape::Bool(b) => serde_json::Value::Bool(b),
        Shape::Number(Number::Unsigned(n)) => serde_json::Value::from(n),
        Shape::Number(Number::Negative(n)) => serde_json::Value::from(n),
        Shape::Number(Number::Real(text)) => serde_json::Value::from(
            text.parse().ok().and_then(serde_json::Number::from_f64),
        ),
        Shape::Text(text) => serde_json::Value::String(text),
        Shape::Array(values) => serde_json::Value::Array(values),
        Shape::Object(fields) => serde_json::Value::Object(fields.into_iter().collect()),
    }
}

/// Whether no object in a value has a key twice.
pub open spec fn keys_once(value: JsonView) -> bool
    decreases value,
{
    match value {
        JsonView::Array(items) => forall|i: int|
            0 <= i < items.len() ==> keys_once(#[trigger] items[i]),
        JsonView::Object(fields) => distinct_keys(fields) && forall|i: int|
            0 <= i < fields.len() ==> keys_once((#[trigger] fields[i]).1),
        _ => true,
    }
}

/// The JSON value that a value of `serde_json` holds. No object in it has a key twice.
pub fn json_of(value: serde_json::Value) -> (r: Json)
    ensures
        r@ == value_json(value),
        keys_once(r@),
    decreases value_json(value),
{
    let ghost held = value_json(value);
    match value_shape(value) {
        Shape::Null => Json::Null,
        Shape::Bool(b) => Json::Bool(b),
        Shape::Number(n) => Json::Number(n),
        Shape::Text(text) => Json::Text(text),
        Shape::Array(values) => {
            let ghost all = values@;
            let mut items: Vec<Json> = Vec::new();
            for item in rest: values
                invariant
                    rest.seq() == all,
                    held == value_json(value),
                    held == JsonView::Array(value_items(all)),
                    items@.len() == rest.index(),
                    forall|j: int|
                        0 <= j < items@.len() ==> (#[trigger] items@[j])@ == value_json(all[j])
                            && keys_once(items@[j]@),
            {
                proof {
                    let listed = value_items(all);
                    assert(listed[rest.index()] == value_json(item));
                    assert(decreases_to!(held => held->Array_0));
                    assert(decreases_to!(listed => listed[rest.index()]));
                }
                items.push(json_of(item));
            }
            assert(item_views(items@) =~= value_items(all));
            json_array(items)
        },
        Shape::Object(values) => {
            let ghost all = values@;
            let mut fields: Vec<(String, Json)> = Vec::new();
            for field in rest: values
                invariant
                    rest.seq() == all,
                    held == value_json(value),
                    held == JsonView::Object(value_fields(all)),
                    fields@.len() == rest.index(),
                    forall|j: int|
                        0 <= j < fields@.len() ==> (#[trigger] fields@[j]).0@ == all[j].0@
                            && fields@[j].1@ == value_json(all[j].1) && keys_once(fields@[j].1@),
            {
                proof {
                    let listed = value_fields(all);
                    assert(listed[rest.index()] == (field.0@, value_json(field.1)));
                    assert(decreases_to!(held => held->Object_0));
                    assert(decreases_to!(listed => listed[rest.index()]));
                    assert(decreases_to!(listed[rest.index()] => listed[rest.index()].1));
                }
                fields.push((field.0, json_of(field.1)));
            }
            assert(field_views(fields@) =~= value_fields(all));
            json_object(fields)
        },
    }
}

/// What a value of `serde_json` holds that is made of a JSON value, level by level.
pub open spec fn as_value(value: JsonView) -> JsonView
    decreases value,
{
    match value {
        JsonView::Array(items) => JsonView::Array(as_items(items)),
        JsonView::Object(fields) => JsonView::Object(map_fields(firsts(as_fields(fields)))),
        JsonView::Number(NumberView::Real(text)) => real_json(text),
        plain => plain,
    }
}

/// What the items of an array hold once they are values of `serde_json`.
pub open spec fn as_items(items: Seq<JsonView>) -> Seq<JsonView>
    decreases items,
{
    Seq::new(
        items.len(),
        |i: int|
            if 0 <= i < items.len() {
                as_value(items[i])
            } else {
                JsonView::Null
            },
    )
}

/// What the fields of an object hold once their values are values of `serde_json`.
pub open spec fn as_fields(fields: Seq<(Seq<char>, JsonView)>) -> Seq<(Seq<char>, JsonView)>
    decreases fields,
{
    Seq::new(
        fields.len(),
        |i: int|
            if 0 <= i < fields.len() {
                (fields[i].0, as_value(fields[i].1))
            } else {
                (Seq::empty(), JsonView::Null)
            },
    )
}

/// Whether what a value of `serde_json` holds is what a JSON value holds: the same items, the same
/// fields in whatever order, the double that the text of a number writes, or `null`, and anything
/// else as it is. Where a key stands twice in the JSON value, the first field counts.
pub open spec fn carries(held: JsonView, json: JsonView) -> bool
    decreases json,
{
    match json {
        JsonView::Array(items) => held matches JsonView::Array(others) && others.len()
            == items.len() && forall|i: int|
            0 <= i < items.len() ==> carries(others[i], #[trigger] items[i]),
        JsonView::Object(fields) => held matches JsonView::Object(others) && distinct_keys(others)
            && (forall|j: int| 0 <= j < others.len() ==> has_key(fields, (#[trigger] others[j]).0))
            && forall|i: int|
            0 <= i < fields.len() && !has_key(fields.take(i), fields[i].0) ==> lookup(
                others,
                (#[trigger] fields[i]).0,
            ) is Some && carries(lookup(others, fields[i].0)->0, fields[i].1),
        JsonView::Number(NumberView::Real(text)) => held == real_json(text) && (held is Number
            || held is Null),
        plain => held == plain,
    }
}

/// The fields of a value that carries an object: it has just the fields that the object has, and
/// each carries what the object has there.
pub proof fn law_carried_fields(held: JsonView, json: JsonView, key: Seq<char>)
    requires
        json is Object,
        carries(held, json),
    ensures
        match json.field(key) {
            Some(value) => held.field(key) is Some && carries(held.field(key)->0, value),
            None => held.field(key) is None,
        },
{
    let fields = json->Object_0;
    let others = held->Object_0;
    lemma_lookup_has_key(fields, key);
    lemma_lookup_has_key(others, key);
    if has_key(fields, key) {
        let at = first_position(fields, key);
        lemma_first_entry(fields, key, fields[at].1, at);
        assert(!has_key(fields.take(at), key)) by {
            if has_key(fields.take(at), key) {
                let i = choose|i: int|
                    0 <= i < fields.take(at).len() && (#[trigger] fields.take(at)[i]).0 == key;
                assert(fields[i].0 != key);
            }
        }
    }
}

/// The value of an object carries it.
pub(crate) proof fn lemma_object_carried(
    others: Seq<(Seq<char>, JsonView)>,
    fields: Seq<(Seq<char>, JsonView)>,
)
    requires
        distinct_keys(others),
        others.to_multiset() == firsts(as_fields(fields)).to_multiset(),
        forall|i: int|
            0 <= i < fields.len() ==> carries(as_value((#[trigger] fields[i]).1), fields[i].1),
    ensures
        carries(JsonView::Object(others), JsonView::Object(fields)),
{
    let built = as_fields(fields);
    lemma_firsts(built);
    assert forall|j: int| 0 <= j < others.len() implies has_key(fields, (#[trigger] others[j]).0)
        by {
        let key = others[j].0;
        lemma_same_entries(others, firsts(built), key);
        lemma_lookup_has_key(others, key);
        assert(has_key(others, key));
        assert(lookup(firsts(built), key) == lookup(built, key));
        lemma_lookup_has_key(built, key);
        let i = choose|i: int| 0 <= i < built.len() && (#[trigger] built[i]).0 == key;
        assert(fields[i].0 == key);
    }
    assert forall|i: int|
        0 <= i < fields.len() && !has_key(fields.take(i), fields[i].0) implies lookup(
        others,
        (#[trigger] fields[i]).0,
    ) is Some && carries(lookup(others, fields[i].0)->0, fields[i].1) by {
        let key = fields[i].0;
        lemma_same_entries(others, firsts(built), key);
        assert(lookup(firsts(built), key) == lookup(built, key));
        assert forall|k: int| 0 <= k < i implies (#[trigger] built[k]).0 != key by {
            assert(fields.take(i)[k] == fields[k]);
        }
        lemma_first_entry(built, key, built[i].1, i);
    }
}

/// Whether the key of a field stands in front of it too.
fn is_repeated(fields: &Vec<(String, Json)>, at: usize) -> (r: bool)
    requires
        at < fields@.len(),
    ensures
        r == has_key(field_views(fields@).take(at as int), fields@[at as int].0@),
{
    let ghost before = field_views(fields@).take(at as int);
    let mut i: usize = 0;
    while i < at
        invariant
            i <= at < fields@.len(),
            before == field_views(fields@).take(at as int),
            forall|j: int| 0 <= j < i ==> (#[trigger] before[j]).0 != fields@[at as int].0@,
        decreases at - i,
    {
        if fields[i].0 == fields[at].0 {
            assert(before[i as int].0 == fields@[at as int].0@);
            return true;
        }
        i = i + 1;
    }
    false
}

/// The value of `serde_json` for a JSON value.
pub fn value_of(json: &Json) -> (r: serde_json::Value)
    ensures
        value_json(r) == as_value(json@),
        carries(as_value(json@), json@),
    decreases json,
{
    match json {
        Json::Null => shape_value(Shape::Null),
        Json::Bool(b) => shape_value(Shape::Bool(*b)),
        Json::Number(n) => shape_value(Shape::Number(n.clone())),
        Json::Text(text) => shape_value(Shape::Text(text.clone())),
        Json::Array(items) => {
            let mut values: Vec<serde_json::Value> = Vec::new();
            let mut i: usize = 0;
            while i < items.len()
                invariant
                    *json == Json::Array(*items),
                    i <= items@.len(),
                    values@.len() == i,
                    forall|j: int|
                        0 <= j < i ==> value_json(#[trigger] values@[j]) == as_value(items@[j]@)
                            && carries(as_value(items@[j]@), items@[j]@),
                decreases items@.len() - i,
            {
                proof {
                    assert(decreases_to!(*json => json->Array_0));
                    assert(decreases_to!(*items => items@));
                    assert(decreases_to!(items@ => items@[i as int]));
                }
                values.push(value_of(&items[i]));
                i = i + 1;
            }
            proof {
                lemma_array_view(*json);
                assert(value_items(values@) =~= as_items(item_views(items@)));
            }
            shape_value(Shape::Array(values))
        },
        Json::Object(fields) => {
            let ghost entries = field_views(fields@);
            let ghost built = as_fields(entries);
            let mut values: Vec<(String, serde_json::Value)> = Vec::new();
            let mut i: usize = 0;
            assert(value_fields(values@) =~= firsts(built.take(0)));
            while i < fields.len()
                invariant
                    *json == Json::Object(*fields),
                    entries == field_views(fields@),
                    built == as_fields(entries),
                    i <= fields@.len(),
                    value_fields(values@) == firsts(built.take(i as int)),
                    forall|j: int|
                        0 <= j < i ==> carries(as_value((#[trigger] entries[j]).1), entries[j].1),
                decreases fields@.len() - i,
            {
                let ghost before = values@;
                proof {
                    assert(decreases_to!(*json => json->Object_0));
                    assert(decreases_to!(*fields => fields@));
                    assert(decreases_to!(fields@ => fields@[i as int]));
                    assert(decreases_to!(fields@[i as int] => fields@[i as int].1));
                    assert(built.take(i + 1).drop_last() =~= built.take(i as int));
                    lemma_same_keys(
                        built.take(i as int),
                        entries.take(i as int),
                        entries[i as int].0,
                    );
                }
                let value = value_of(&fields[i].1);
                if !is_repeated(fields, i) {
                    values.push((fields[i].0.clone(), value));
                    assert(value_fields(values@) =~= value_fields(before).push(built[i as int]));
                }
                i = i + 1;
            }
            proof {
                lemma_object_view(*json);
                assert(built.take(i as int) =~= built);
                lemma_firsts(built);
            }
            let r = shape_value(Shape::Object(values));
            proof {
                lemma_object_carried(value_json(r)->Object_0, entries);
            }
            r
        },
    }
}

/// Lists with the same keys at the same places have the same keys.
proof fn lemma_same_keys<V, W>(
    left: Seq<(Seq<char>, V)>,
    right: Seq<(Seq<char>, W)>,
    key: Seq<char>,
)
    requires
        left.len() == right.len(),
        forall|i: int| 0 <= i < left.len() ==> (#[trigger] left[i]).0 == right[i].0,
    ensures
        has_key(left, key) == has_key(right, key),
{
    if has_key(left, key) {
        let i = choose|i: int| 0 <= i < left.len() && (#[trigger] left[i]).0 == key;
        assert(right[i].0 == key);
    }
    if has_key(right, key) {
        let i = choose|i: int| 0 <= i < right.len() && (#[trigger] right[i]).0 == key;
        assert(left[i].0 == key);
    }
}

/// The JSON value that a text writes, as `serde_json` reads it.
pub fn parse_json(text: &str) -> (r: Option<Json>)
    ensures
        viewed(r) == parsed_json(text@),
        r is Some ==> keys_once(r->0@),
{
    match parse_value(text) {
        Some(value) => Some(json_of(value)),
        None => None,
    }
}

/// The text that `serde_json` writes for a JSON value.
pub open spec fn written_json(value: JsonView) -> Option<Seq<char>> {
    printed_json(as_value(value))
}

/// The text that `serde_json` writes for a JSON value.
pub fn write_json(json: &Json) -> (r: Option<String>)
    ensures
        viewed(r) == written_json(json@),
        carries(as_value(json@), json@),
{
    let value = value_of(json);
    print_value(&value)
}

} // verus!
