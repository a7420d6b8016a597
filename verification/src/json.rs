//! JSON values: the payloads that come in and go out, and the replies of the window manager.

use vstd::prelude::*;
use vstd::string::*;

use crate::table::{lemma_first_entry, lemma_lookup_has_key, lemma_no_entry, lookup, with_entry};
use crate::text::{decimal_text, digits_of};

verus! {

/// A JSON number: an integer that is not negative, one that is, or any other number as the text
/// that writes it.
#[derive(Debug)]
pub enum Number {
    Unsigned(u64),
    Negative(i64),
    Real(String),
}

/// The number that a [`Number`] stands for.
pub ghost enum NumberView {
    Integer(int),
    Real(Seq<char>),
}

impl View for Number {
    type V = NumberView;

    open spec fn view(&self) -> NumberView {
        match self {
            Number::Unsigned(n) => NumberView::Integer(*n as int),
            Number::Negative(n) => NumberView::Integer(*n as int),
            Number::Real(text) => NumberView::Real(text@),
        }
    }
}

impl Clone for Number {
    fn clone(&self) -> (r: Self)
        ensures
            r@ == self@,
    {
        match self {
            Number::Unsigned(n) => Number::Unsigned(*n),
            Number::Negative(n) => Number::Negative(*n),
            Number::Real(text) => Number::Real(text.clone()),
        }
    }
}

/// A JSON value. An object is the list of its fields; where a key stands twice, the first field
/// counts.
#[derive(Debug)]
pub enum Json {
    Null,
    Bool(bool),
    Number(Number),
    Text(String),
    Array(Vec<Json>),
    Object(Vec<(String, Json)>),
}

/// The value that a [`Json`] stands for.
pub ghost enum JsonView {
    Null,
    Bool(bool),
    Number(NumberView),
    Text(Seq<char>),
    Array(Seq<JsonView>),
    Object(Seq<(Seq<char>, JsonView)>),
}

impl View for Json {
    type V = JsonView;

    open spec fn view(&self) -> JsonView
        decreases self,
    {
        match self {
            Json::Null => JsonView::Null,
            Json::Bool(b) => JsonView::Bool(*b),
            Json::Number(n) => JsonView::Number(n@),
            Json::Text(text) => JsonView::Text(text@),
            Json::Array(items) => JsonView::Array(
                Seq::new(
                    items@.len(),
                    |i: int|
                        if 0 <= i < items@.len() {
                            items@[i].view()
                        } else {
                            JsonView::Null
                        },
                ),
            ),
            Json::Object(fields) => JsonView::Object(
                Seq::new(
                    fields@.len(),
                    |i: int|
                        if 0 <= i < fields@.len() {
                            (fields@[i].0@, fields@[i].1.view())
                        } else {
                            (Seq::empty(), JsonView::Null)
                        },
                ),
            ),
        }
    }
}

/// The values that the items of an array stand for.
pub open spec fn item_views(items: Seq<Json>) -> Seq<JsonView> {
    items.map_values(|item: Json| item@)
}

/// The values that the fields of an object stand for.
pub open spec fn field_views(fields: Seq<(String, Json)>) -> Seq<(Seq<char>, JsonView)> {
    fields.map_values(|field: (String, Json)| (field.0@, field.1@))
}

/// The value that an optional value stands for.
pub open spec fn viewed<T: View>(value: Option<T>) -> Option<T::V> {
    match value {
        Some(inner) => Some(inner@),
        None => None,
    }
}

impl JsonView {
    /// The value of the field `key`, where this is an object that has it.
    pub open spec fn field(self, key: Seq<char>) -> Option<JsonView> {
        match self {
            JsonView::Object(fields) => lookup(fields, key),
            _ => None,
        }
    }

    /// The text that this is.
    pub open spec fn text(self) -> Option<Seq<char>> {
        match self {
            JsonView::Text(text) => Some(text),
            _ => None,
        }
    }

    /// The truth value that this is.
    pub open spec fn truth(self) -> Option<bool> {
        match self {
            JsonView::Bool(b) => Some(b),
            _ => None,
        }
    }

    /// The integer that this is, where an `i64` can hold it.
    pub open spec fn integer(self) -> Option<i64> {
        match self {
            JsonView::Number(NumberView::Integer(n)) => if i64::MIN <= n <= i64::MAX {
                Some(n as i64)
            } else {
                None
            },
            _ => None,
        }
    }

    /// The items of the array that this is.
    pub open spec fn items(self) -> Option<Seq<JsonView>> {
        match self {
            JsonView::Array(items) => Some(items),
            _ => None,
        }
    }

    /// The text of the field `key`.
    pub open spec fn text_field(self, key: Seq<char>) -> Option<Seq<char>> {
        match self.field(key) {
            Some(value) => value.text(),
            None => None,
        }
    }

    /// The integer of the field `key`.
    pub open spec fn integer_field(self, key: Seq<char>) -> Option<i64> {
        match self.field(key) {
            Some(value) => value.integer(),
            None => None,
        }
    }

    /// This object with `value` for the field `key`.
    pub open spec fn with_field(self, key: Seq<char>, value: JsonView) -> JsonView {
        match self {
            JsonView::Object(fields) => JsonView::Object(with_entry(fields, key, value)),
            other => other,
        }
    }
}

/// The integer `n` as a JSON number.
pub open spec fn integer_json(n: int) -> JsonView {
    JsonView::Number(NumberView::Integer(n))
}

/// An optional field of an object: no field where there is no value.
pub open spec fn optional_field(key: Seq<char>, value: Option<JsonView>) -> Seq<
    (Seq<char>, JsonView),
> {
    match value {
        Some(inner) => seq![(key, inner)],
        None => seq![],
    }
}

/// The JSON text of an optional text.
pub open spec fn optional_text(value: Option<Seq<char>>) -> Option<JsonView> {
    match value {
        Some(text) => Some(JsonView::Text(text)),
        None => None,
    }
}

/// The JSON number of an optional integer.
pub open spec fn optional_integer(value: Option<i64>) -> Option<JsonView> {
    match value {
        Some(n) => Some(integer_json(n as int)),
        None => None,
    }
}

impl Json {
    /// The value of the field `key`, where this is an object that has it.
    pub fn get(&self, key: &str) -> (r: Option<&Json>)
        ensures
            viewed(r) == self@.field(key@),
    {
        match self {
            Json::Object(fields) => {
                let wanted = key.to_owned();
                let ghost entries = field_views(fields@);
                assert(self@ == JsonView::Object(entries)) by {
                    lemma_object_view(*self);
                }
                let mut i: usize = 0;
                while i < fields.len()
                    invariant
                        wanted@ == key@,
                        i <= fields@.len(),
                        entries == field_views(fields@),
                        self@ == JsonView::Object(entries),
                        forall|j: int| 0 <= j < i ==> (#[trigger] entries[j]).0 != key@,
                    decreases fields@.len() - i,
                {
                    if fields[i].0 == wanted {
                        proof {
                            lemma_first_entry(entries, key@, entries[i as int].1, i as int);
                        }
                        return Some(&fields[i].1);
                    }
                    i = i + 1;
                }
                proof {
                    lemma_lookup_has_key(entries, key@);
                }
                None
            },
            _ => None,
        }
    }

    /// The text that this is.
    pub fn as_str(&self) -> (r: Option<&str>)
        ensures
            viewed(r) == self@.text(),
    {
        match self {
            Json::Text(text) => Some(text.as_str()),
            _ => None,
        }
    }

    /// The truth value that this is.
    pub fn as_bool(&self) -> (r: Option<bool>)
        ensures
            r == self@.truth(),
    {
        match self {
            Json::Bool(b) => Some(*b),
            _ => None,
        }
    }

    /// The integer that this is, where an `i64` can hold it.
    pub fn as_i64(&self) -> (r: Option<i64>)
        ensures
            r == self@.integer(),
    {
        match self {
            Json::Number(Number::Unsigned(n)) => if *n <= i64::MAX as u64 {
                Some(*n as i64)
            } else {
                None
            },
            Json::Number(Number::Negative(n)) => Some(*n),
            _ => None,
        }
    }

    /// The items of the array that this is.
    pub fn as_array(&self) -> (r: Option<&Vec<Json>>)
        ensures
            match r {
                Some(items) => self@.items() == Some(item_views(items@)),
                None => self@.items() is None,
            },
    {
        match self {
            Json::Array(items) => {
                assert(self@ == JsonView::Array(item_views(items@))) by {
                    lemma_array_view(*self);
                }
                Some(items)
            },
            _ => None,
        }
    }

    /// Whether this is an object.
    pub fn is_object(&self) -> (r: bool)
        ensures
            r == (self@ is Object),
    {
        match self {
            Json::Object(_) => true,
            _ => false,
        }
    }

    /// The text of the field `key`.
    pub fn get_str(&self, key: &str) -> (r: Option<&str>)
        ensures
            viewed(r) == self@.text_field(key@),
    {
        match self.get(key) {
            Some(value) => value.as_str(),
            None => None,
        }
    }

    /// The integer of the field `key`.
    pub fn get_i64(&self, key: &str) -> (r: Option<i64>)
        ensures
            r == self@.integer_field(key@),
    {
        match self.get(key) {
            Some(value) => value.as_i64(),
            None => None,
        }
    }

    /// This object with `value` for the field `key`; any other value as it is.
    pub fn with_field(self, key: &str, value: Json) -> (r: Json)
        ensures
            r@ == self@.with_field(key@, value@),
    {
        proof {
            lemma_object_view(self);
        }
        match self {
            Json::Object(fields) => {
                let mut fields = fields;
                insert_field(&mut fields, key, value);
                json_object(fields)
            },
            other => other,
        }
    }
}

/// The view of an array is made of the views of its items.
pub proof fn lemma_array_view(json: Json)
    ensures
        json matches Json::Array(items) ==> json@ == JsonView::Array(item_views(items@)),
{
    if let Json::Array(items) = json {
        assert(json@->Array_0 =~= item_views(items@));
    }
}

/// The view of an object is made of the views of its fields.
pub proof fn lemma_object_view(json: Json)
    ensures
        json matches Json::Object(fields) ==> json@ == JsonView::Object(field_views(fields@)),
{
    if let Json::Object(fields) = json {
        reveal_with_fuel(<Json as View>::view, 2);
        assert(json@->Object_0 =~= field_views(fields@));
    }
}

/// The object with the given fields.
pub fn json_object(fields: Vec<(String, Json)>) -> (r: Json)
    ensures
        r@ == JsonView::Object(field_views(fields@)),
{
    let r = Json::Object(fields);
    proof {
        lemma_object_view(r);
    }
    r
}

/// The array with the given items.
pub fn json_array(items: Vec<Json>) -> (r: Json)
    ensures
        r@ == JsonView::Array(item_views(items@)),
{
    let r = Json::Array(items);
    proof {
        lemma_array_view(r);
    }
    r
}

/// A JSON text.
pub fn json_text(value: &str) -> (r: Json)
    ensures
        r@ == JsonView::Text(value@),
{
    Json::Text(value.to_owned())
}

/// The JSON number of an integer.
pub fn json_integer(value: i64) -> (r: Json)
    ensures
        r@ == integer_json(value as int),
{
    if value < 0 {
        Json::Number(Number::Negative(value))
    } else {
        Json::Number(Number::Unsigned(value as u64))
    }
}

/// Adds a field at the end.
pub fn push_field(fields: &mut Vec<(String, Json)>, key: &str, value: Json)
    ensures
        field_views(final(fields)@) == field_views(old(fields)@).push((key@, value@)),
{
    fields.push((key.to_owned(), value));
    assert(field_views(fields@) =~= field_views(old(fields)@).push((key@, value@)));
}

/// Sets the field `key`: the one that is there, or else a new one at the end.
pub fn insert_field(fields: &mut Vec<(String, Json)>, key: &str, value: Json)
    ensures
        field_views(final(fields)@) == with_entry(field_views(old(fields)@), key@, value@),
{
    let ghost entries = field_views(fields@);
    let ghost written = value@;
    let wanted = key.to_owned();
    let mut i: usize = 0;
    while i < fields.len() && !(fields[i].0 == wanted)
        invariant
            wanted@ == key@,
            i <= fields@.len(),
            entries == field_views(fields@),
            forall|j: int| 0 <= j < i ==> (#[trigger] entries[j]).0 != key@,
        decreases fields@.len() - i,
    {
        i = i + 1;
    }
    if i < fields.len() {
        proof {
            lemma_first_entry(entries, key@, written, i as int);
        }
        fields.set(i, (wanted, value));
    } else {
        proof {
            lemma_no_entry(entries, key@, written);
        }
        fields.push((wanted, value));
    }
    assert(field_views(fields@) =~= with_entry(entries, key@, written));
}

/// Fields with the field `key` set, where there is a value for it.
pub open spec fn with_optional(
    fields: Seq<(Seq<char>, JsonView)>,
    key: Seq<char>,
    value: Option<JsonView>,
) -> Seq<(Seq<char>, JsonView)> {
    match value {
        Some(inner) => with_entry(fields, key, inner),
        None => fields,
    }
}

/// Whether no field has that key.
pub open spec fn absent(fields: Seq<(Seq<char>, JsonView)>, key: Seq<char>) -> bool {
    forall|i: int| 0 <= i < fields.len() ==> (#[trigger] fields[i]).0 != key
}

/// Where no field has that key yet, an optional field comes at the end, and no other key is taken
/// by it.
pub proof fn lemma_new_field(
    fields: Seq<(Seq<char>, JsonView)>,
    key: Seq<char>,
    value: Option<JsonView>,
)
    requires
        absent(fields, key),
    ensures
        with_optional(fields, key, value) == fields + optional_field(key, value),
        forall|other: Seq<char>| #[trigger]
            absent(fields, other) && other != key ==> absent(
                with_optional(fields, key, value),
                other,
            ),
{
    if let Some(inner) = value {
        lemma_no_entry(fields, key, inner);
        assert(fields.push((key, inner)) =~= fields + seq![(key, inner)]);
    } else {
        assert(fields + seq![] =~= fields);
    }
}

/// Sets the field `key` to a text, where there is one.
pub fn insert_optional_string(fields: &mut Vec<(String, Json)>, key: &str, value: Option<&str>)
    ensures
        field_views(final(fields)@) == with_optional(
            field_views(old(fields)@),
            key@,
            optional_text(viewed(value)),
        ),
{
    if let Some(inner) = value {
        insert_field(fields, key, json_text(inner));
    }
}

/// Sets the field `key` to an integer, where there is one.
pub fn insert_optional_i64(fields: &mut Vec<(String, Json)>, key: &str, value: Option<i64>)
    ensures
        field_views(final(fields)@) == with_optional(
            field_views(old(fields)@),
            key@,
            optional_integer(value),
        ),
{
    if let Some(inner) = value {
        insert_field(fields, key, json_integer(inner));
    }
}

/// The text that names a JSON value: a text is its own name, a number and a truth value are named
/// as JSON writes them, and nothing else has a name.
pub open spec fn value_name(value: JsonView) -> Option<Seq<char>> {
    match value {
        JsonView::Text(text) => Some(text),
        JsonView::Number(NumberView::Integer(n)) => if n < 0 {
            Some("-"@ + digits_of((-n) as nat, 10))
        } else {
            Some(digits_of(n as nat, 10))
        },
        JsonView::Number(NumberView::Real(text)) => Some(text),
        JsonView::Bool(b) => if b {
            Some("true"@)
        } else {
            Some("false"@)
        },
        _ => None,
    }
}

/// The text that names a JSON value.
pub fn value_to_string(value: &Json) -> (r: Option<String>)
    ensures
        viewed(r) == value_name(value@),
{
    match value {
        Json::Text(text) => Some(text.clone()),
        Json::Number(Number::Unsigned(n)) => Some(decimal_text(*n)),
        Json::Number(Number::Negative(n)) => if *n < 0 {
            let size: u64 = (-(*n as i128)) as u64;
            Some("-".to_owned().concat(decimal_text(size).as_str()))
        } else {
            Some(decimal_text(*n as u64))
        },
        Json::Number(Number::Real(text)) => Some(text.clone()),
        Json::Bool(b) => if *b {
            Some("true".to_owned())
        } else {
            Some("false".to_owned())
        },
        _ => None,
    }
}

} // verus!
