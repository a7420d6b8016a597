//! What holds of JSON values: what is found in them and what they are named.

use vstd::prelude::*;

use crate::json::{value_name, JsonView, NumberView};
use crate::laws::texts::law_digits;
use crate::table::{
    first_position, has_key, lemma_first_entry, lemma_lookup_has_key, lookup, with_entry,
};
use crate::text::{decimal_value, digits_of};

verus! {

/// In a list the value for a key is that of the first entry with the key, and there is none where
/// no entry has it.
pub proof fn law_lookup<W>(entries: Seq<(Seq<char>, W)>, key: Seq<char>)
    ensures
        match lookup(entries, key) {
            Some(value) => exists|i: int|
                0 <= i < entries.len() && #[trigger] entries[i] == (key, value) && forall|j: int|
                    0 <= j < i ==> (#[trigger] entries[j]).0 != key,
            None => forall|i: int| 0 <= i < entries.len() ==> (#[trigger] entries[i]).0 != key,
        },
{
    lemma_lookup_has_key(entries, key);
    if has_key(entries, key) {
        let at = first_position(entries, key);
        lemma_first_entry(entries, key, entries[at].1, at);
        assert(entries[at] == (key, entries[at].1));
    }
}

/// Only an object has fields, and a field is found where it stands first.
pub proof fn law_field(fields: Seq<(Seq<char>, JsonView)>, i: int, other: JsonView)
    requires
        0 <= i < fields.len(),
        forall|j: int| 0 <= j < i ==> (#[trigger] fields[j]).0 != fields[i].0,
        !(other is Object),
    ensures
        JsonView::Object(fields).field(fields[i].0) == Some(fields[i].1),
        other.field(fields[i].0) is None,
{
    lemma_first_entry(fields, fields[i].0, fields[i].1, i);
}

/// Only a text is read as a text, only a truth value as one, only an array as its items, and only
/// an integer that fits as an integer; each as what it is.
pub proof fn law_readings(
    value: JsonView,
    text: Seq<char>,
    b: bool,
    items: Seq<JsonView>,
    n: i64,
)
    ensures
        value.text() == Some(text) <==> value == JsonView::Text(text),
        value.truth() == Some(b) <==> value == JsonView::Bool(b),
        value.items() == Some(items) <==> value == JsonView::Array(items),
        value.integer() == Some(n) <==> value == JsonView::Number(NumberView::Integer(n as int)),
{
}

/// A text field, and an integer field, is a field that is a text, or an integer.
pub proof fn law_typed_fields(value: JsonView, key: Seq<char>, text: Seq<char>, n: i64)
    ensures
        value.text_field(key) == Some(text) <==> value.field(key) == Some(JsonView::Text(text)),
        value.integer_field(key) == Some(n) <==> value.field(key) == Some(
            JsonView::Number(NumberView::Integer(n as int)),
        ),
{
}

/// The name of a text is the text, that of an integer writes the integer in base ten, that of
/// another number is its text, and that of a truth value is the word for it. Nothing else has a
/// name.
pub proof fn law_value_name(value: JsonView)
    ensures
        match value {
            JsonView::Text(text) => value_name(value) == Some(text),
            JsonView::Bool(b) => value_name(value) == Some(
                if b {
                    seq!['t', 'r', 'u', 'e']
                } else {
                    seq!['f', 'a', 'l', 's', 'e']
                },
            ),
            JsonView::Number(NumberView::Real(text)) => value_name(value) == Some(text),
            JsonView::Number(NumberView::Integer(n)) => value_name(value) matches Some(name) && (if n
                < 0 {
                &&& name.len() > 1
                &&& name[0] == '-'
                &&& name[1] != '0'
                &&& forall|i: int| 1 <= i < name.len() ==> '0' <= #[trigger] name[i] <= '9'
                &&& decimal_value(name.skip(1)) == -n
            } else {
                &&& name.len() > 0
                &&& n > 0 ==> name[0] != '0'
                &&& forall|i: int| 0 <= i < name.len() ==> '0' <= #[trigger] name[i] <= '9'
                &&& decimal_value(name) == n
            }),
            _ => value_name(value) is None,
        },
{
    reveal_strlit("true");
    reveal_strlit("false");
    reveal_strlit("-");
    assert("true"@ =~= seq!['t', 'r', 'u', 'e']);
    assert("false"@ =~= seq!['f', 'a', 'l', 's', 'e']);
    if let JsonView::Number(NumberView::Integer(n)) = value {
        if n < 0 {
            let digits = digits_of((-n) as nat, 10);
            let name = "-"@ + digits;
            law_digits((-n) as nat);
            assert(name.skip(1) =~= digits);
            assert forall|i: int| 1 <= i < name.len() implies '0' <= #[trigger] name[i] <= '9' by {
                assert(name[i] == digits[i - 1]);
            }
        } else {
            law_digits(n as nat);
        }
    }
}

/// A field that is set is found with its new value, every other as it was, and only objects can be
/// given fields.
pub proof fn law_with_field(value: JsonView, key: Seq<char>, set: JsonView, other: Seq<char>)
    ensures
        value is Object ==> value.with_field(key, set).field(key) == Some(set),
        other != key ==> value.with_field(key, set).field(other) == value.field(other),
        !(value is Object) ==> value.with_field(key, set) == value,
{
    if let JsonView::Object(fields) = value {
        crate::table::lemma_read_after_write(fields, key, set, other);
        crate::table::lemma_read_after_write(fields, key, set, key);
        assert(with_entry(fields, key, set) == value.with_field(key, set)->Object_0);
    }
}

} // verus!
