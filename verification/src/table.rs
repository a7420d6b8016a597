//! A table from texts to values, which keeps the order in which its keys came.

use vstd::prelude::*;

verus! {

/// No key stands twice.
pub open spec fn distinct_keys<W>(entries: Seq<(Seq<char>, W)>) -> bool {
    forall|i: int, j: int| 0 <= i < j < entries.len() ==> entries[i].0 != entries[j].0
}

/// Whether there is an entry for `key`.
pub open spec fn has_key<W>(entries: Seq<(Seq<char>, W)>, key: Seq<char>) -> bool {
    exists|i: int| 0 <= i < entries.len() && (#[trigger] entries[i]).0 == key
}

/// The value of the first entry for `key`.
pub open spec fn lookup<W>(entries: Seq<(Seq<char>, W)>, key: Seq<char>) -> Option<W>
    decreases entries.len(),
{
    if entries.len() == 0 {
        None
    } else if entries.first().0 == key {
        Some(entries.first().1)
    } else {
        lookup(entries.drop_first(), key)
    }
}

/// The entries with `value` for `key`: in the place of the first entry for it, or at the end.
pub open spec fn with_entry<W>(
    entries: Seq<(Seq<char>, W)>,
    key: Seq<char>,
    value: W,
) -> Seq<(Seq<char>, W)>
    decreases entries.len(),
{
    if entries.len() == 0 {
        seq![(key, value)]
    } else if entries.first().0 == key {
        entries.update(0, (key, value))
    } else {
        seq![entries.first()] + with_entry(entries.drop_first(), key, value)
    }
}

/// The condition that an entry is not one for `key`.
pub open spec fn other_than<W>(key: Seq<char>) -> spec_fn((Seq<char>, W)) -> bool {
    |entry: (Seq<char>, W)| entry.0 != key
}

/// The entries without those for `key`.
pub open spec fn without_key<W>(entries: Seq<(Seq<char>, W)>, key: Seq<char>) -> Seq<
    (Seq<char>, W),
> {
    entries.filter(other_than(key))
}

/// What `lookup` and `with_entry` give where position `at` is the first for `key`.
pub proof fn lemma_first_entry<W>(
    entries: Seq<(Seq<char>, W)>,
    key: Seq<char>,
    value: W,
    at: int,
)
    requires
        0 <= at < entries.len(),
        entries[at].0 == key,
        forall|i: int| 0 <= i < at ==> (#[trigger] entries[i]).0 != key,
    ensures
        lookup(entries, key) == Some(entries[at].1),
        with_entry(entries, key, value) == entries.update(at, (key, value)),
    decreases entries.len(),
{
    if at > 0 {
        let rest = entries.drop_first();
        assert forall|i: int| 0 <= i < at - 1 implies (#[trigger] rest[i]).0 != key by {
            assert(rest[i] == entries[i + 1]);
        }
        lemma_first_entry(rest, key, value, at - 1);
        assert(entries[0].0 != key);
        assert(seq![entries.first()] + rest.update(at - 1, (key, value)) =~= entries.update(
            at,
            (key, value),
        ));
    }
}

/// What `lookup` and `with_entry` give where there is no entry for `key`.
pub proof fn lemma_no_entry<W>(entries: Seq<(Seq<char>, W)>, key: Seq<char>, value: W)
    requires
        forall|i: int| 0 <= i < entries.len() ==> (#[trigger] entries[i]).0 != key,
    ensures
        lookup(entries, key) is None,
        with_entry(entries, key, value) == entries.push((key, value)),
    decreases entries.len(),
{
    if entries.len() > 0 {
        let rest = entries.drop_first();
        assert forall|i: int| 0 <= i < rest.len() implies (#[trigger] rest[i]).0 != key by {
            assert(rest[i] == entries[i + 1]);
        }
        lemma_no_entry(rest, key, value);
        assert(entries[0].0 != key);
        assert(seq![entries.first()] + rest.push((key, value)) =~= entries.push((key, value)));
    } else {
        assert(entries.push((key, value)) =~= seq![(key, value)]);
    }
}

/// The position of the first entry for `key`, or the number of entries where there is none.
pub proof fn first_position<W>(entries: Seq<(Seq<char>, W)>, key: Seq<char>) -> (at: int)
    ensures
        0 <= at <= entries.len(),
        at < entries.len() <==> has_key(entries, key),
        at < entries.len() ==> entries[at].0 == key,
        forall|i: int| 0 <= i < at ==> (#[trigger] entries[i]).0 != key,
    decreases entries.len(),
{
    if entries.len() == 0 {
        0
    } else if entries.first().0 == key {
        assert(entries[0].0 == key);
        0
    } else {
        let rest = entries.drop_first();
        let at = first_position(rest, key) + 1;
        assert forall|i: int| 0 <= i < at implies (#[trigger] entries[i]).0 != key by {
            if i > 0 {
                assert(rest[i - 1] == entries[i]);
            }
        }
        if at < entries.len() {
            assert(entries[at] == rest[at - 1]);
        }
        at
    }
}

/// A table has a value for a key exactly where it has an entry for it.
pub proof fn lemma_lookup_has_key<W>(entries: Seq<(Seq<char>, W)>, key: Seq<char>)
    ensures
        lookup(entries, key) is Some <==> has_key(entries, key),
{
    let at = first_position(entries, key);
    if at < entries.len() {
        lemma_first_entry(entries, key, entries[at].1, at);
    } else if entries.len() > 0 {
        lemma_no_entry(entries, key, entries[0].1);
    }
}

/// A read gives back what was last written for the key, and a write for one key changes no
/// other.
pub proof fn lemma_read_after_write<W>(
    entries: Seq<(Seq<char>, W)>,
    key: Seq<char>,
    value: W,
    other: Seq<char>,
)
    ensures
        lookup(with_entry(entries, key, value), key) == Some(value),
        other != key ==> lookup(with_entry(entries, key, value), other) == lookup(entries, other),
    decreases entries.len(),
{
    let written = with_entry(entries, key, value);
    if entries.len() == 0 {
        assert(written.first() == (key, value));
        assert(written.drop_first() =~= entries);
        assert(lookup(entries, other) is None);
    } else if entries.first().0 == key {
        assert(written.first() == (key, value));
        assert(written.drop_first() =~= entries.drop_first());
    } else {
        assert(written.first() == entries.first());
        lemma_read_after_write(entries.drop_first(), key, value, other);
        assert(written.drop_first() =~= with_entry(entries.drop_first(), key, value));
    }
}

/// A write keeps the keys distinct.
pub proof fn lemma_write_keeps_keys_distinct<W>(
    entries: Seq<(Seq<char>, W)>,
    key: Seq<char>,
    value: W,
)
    requires
        distinct_keys(entries),
    ensures
        distinct_keys(with_entry(entries, key, value)),
{
    let at = first_position(entries, key);
    if at < entries.len() {
        lemma_first_entry(entries, key, value, at);
    } else {
        lemma_no_entry(entries, key, value);
    }
}

/// A part of the entries that a condition picks holds no other entries.
pub proof fn lemma_filter_is_part<W>(
    entries: Seq<(Seq<char>, W)>,
    keep: spec_fn((Seq<char>, W)) -> bool,
    at: int,
) -> (origin: int)
    requires
        0 <= at < entries.filter(keep).len(),
    ensures
        0 <= origin < entries.len(),
        entries[origin] == entries.filter(keep)[at],
        keep(entries[origin]),
    decreases entries.len(),
{
    reveal(Seq::filter);
    let rest = entries.drop_last();
    if keep(entries.last()) && at == entries.filter(keep).len() - 1 {
        entries.len() - 1
    } else {
        lemma_filter_is_part(rest, keep, at)
    }
}

/// Every entry that meets the condition is picked.
pub proof fn lemma_filter_keeps<W>(
    entries: Seq<(Seq<char>, W)>,
    keep: spec_fn((Seq<char>, W)) -> bool,
    at: int,
) -> (place: int)
    requires
        0 <= at < entries.len(),
        keep(entries[at]),
    ensures
        0 <= place < entries.filter(keep).len(),
        entries.filter(keep)[place] == entries[at],
    decreases entries.len(),
{
    reveal(Seq::filter);
    let rest = entries.drop_last();
    if at == entries.len() - 1 {
        entries.filter(keep).len() - 1
    } else {
        lemma_filter_keeps(rest, keep, at)
    }
}

/// Picking entries keeps the keys distinct.
pub proof fn lemma_filter_keeps_keys_distinct<W>(
    entries: Seq<(Seq<char>, W)>,
    keep: spec_fn((Seq<char>, W)) -> bool,
)
    requires
        distinct_keys(entries),
    ensures
        distinct_keys(entries.filter(keep)),
    decreases entries.len(),
{
    reveal(Seq::filter);
    if entries.len() > 0 {
        let rest = entries.drop_last();
        lemma_filter_keeps_keys_distinct(rest, keep);
        if keep(entries.last()) {
            let picked = rest.filter(keep);
            assert forall|i: int| 0 <= i < picked.len() implies picked[i].0 != entries.last().0 by {
                let origin = lemma_filter_is_part(rest, keep, i);
                assert(entries[origin] == picked[i]);
            }
        }
    }
}

/// In a table with distinct keys, picking entries keeps the value of a key whose entry meets the
/// condition, and takes that of every other away.
pub proof fn lemma_lookup_in_filter<W>(
    entries: Seq<(Seq<char>, W)>,
    keep: spec_fn((Seq<char>, W)) -> bool,
    key: Seq<char>,
)
    requires
        distinct_keys(entries),
    ensures
        lookup(entries.filter(keep), key) == match lookup(entries, key) {
            Some(value) => if keep((key, value)) {
                Some(value)
            } else {
                None
            },
            None => None,
        },
{
    let picked = entries.filter(keep);
    let at = first_position(entries, key);
    if at < entries.len() {
        lemma_first_entry(entries, key, entries[at].1, at);
    } else if entries.len() > 0 {
        lemma_no_entry(entries, key, entries[0].1);
    }
    let place = first_position(picked, key);
    if place < picked.len() {
        lemma_first_entry(picked, key, picked[place].1, place);
        let origin = lemma_filter_is_part(entries, keep, place);
        assert(entries[origin].0 == key);
        assert(origin == at);
    } else {
        if picked.len() > 0 {
            lemma_no_entry(picked, key, picked[0].1);
        }
        if at < entries.len() && keep(entries[at]) {
            let found = lemma_filter_keeps(entries, keep, at);
            assert(picked[found].0 == key);
        }
    }
}

/// A condition that every entry meets picks all of them.
pub proof fn lemma_filter_all<W>(
    entries: Seq<(Seq<char>, W)>,
    keep: spec_fn((Seq<char>, W)) -> bool,
)
    requires
        forall|i: int| 0 <= i < entries.len() ==> keep(#[trigger] entries[i]),
    ensures
        entries.filter(keep) == entries,
    decreases entries.len(),
{
    reveal(Seq::filter);
    if entries.len() > 0 {
        lemma_filter_all(entries.drop_last(), keep);
        assert(keep(entries.last()));
        assert(entries.drop_last().push(entries.last()) =~= entries);
    }
}

/// Taking a key away keeps the keys distinct and adds no entry; the key has no value then, and
/// every other has the one that it had.
pub proof fn lemma_without_key<W>(
    entries: Seq<(Seq<char>, W)>,
    key: Seq<char>,
    other: Seq<char>,
)
    requires
        distinct_keys(entries),
    ensures
        distinct_keys(without_key(entries, key)),
        lookup(without_key(entries, key), key) is None,
        !has_key(without_key(entries, key), key),
        other != key ==> lookup(without_key(entries, key), other) == lookup(entries, other),
        forall|i: int|
            0 <= i < without_key(entries, key).len() ==> entries.contains(
                #[trigger] without_key(entries, key)[i],
            ),
{
    let keep = other_than::<W>(key);
    let left = without_key(entries, key);
    lemma_filter_keeps_keys_distinct(entries, keep);
    lemma_lookup_in_filter(entries, keep, key);
    lemma_lookup_in_filter(entries, keep, other);
    lemma_lookup_has_key(left, key);
    assert forall|i: int| 0 <= i < left.len() implies entries.contains(#[trigger] left[i]) by {
        let origin = lemma_filter_is_part(entries, keep, i);
        assert(entries[origin] == left[i]);
    }
}

/// The entries that a list of pairs stands for.
pub open spec fn entry_views<V: View>(pairs: Seq<(String, V)>) -> Seq<(Seq<char>, V::V)> {
    pairs.map_values(|pair: (String, V)| (pair.0@, pair.1@))
}

/// What `lookup` gives in a list that is made of two.
pub proof fn lemma_lookup_in_both<W>(left: Seq<(Seq<char>, W)>, right: Seq<(Seq<char>, W)>)
    ensures
        forall|key: Seq<char>|
            #![trigger lookup(left + right, key)]
            lookup(left + right, key) == match lookup(left, key) {
                Some(value) => Some(value),
                None => lookup(right, key),
            },
    decreases left.len(),
{
    if left.len() == 0 {
        assert(left + right =~= right);
    } else {
        let rest = left.drop_first();
        lemma_lookup_in_both(rest, right);
        assert((left + right).drop_first() =~= rest + right);
        assert forall|key: Seq<char>|
            #![trigger lookup(left + right, key)]
            lookup(left + right, key) == match lookup(left, key) {
                Some(value) => Some(value),
                None => lookup(right, key),
            } by {
            assert(lookup(rest + right, key) == match lookup(rest, key) {
                Some(value) => Some(value),
                None => lookup(right, key),
            });
        }
    }
}

/// What `lookup` gives in a list of one.
pub proof fn lemma_lookup_in_one<W>(key: Seq<char>, value: W)
    ensures
        forall|other: Seq<char>|
            #![trigger lookup(seq![(key, value)], other)]
            lookup(seq![(key, value)], other) == if other == key {
                Some(value)
            } else {
                None
            },
{
    assert(seq![(key, value)].drop_first() =~= Seq::<(Seq<char>, W)>::empty());
    reveal_with_fuel(lookup, 2);
}

/// The entries without those whose key stands in front of them too.
pub open spec fn firsts<W>(entries: Seq<(Seq<char>, W)>) -> Seq<(Seq<char>, W)>
    decreases entries.len(),
{
    if entries.len() == 0 {
        Seq::empty()
    } else {
        let before = entries.drop_last();
        if has_key(before, entries.last().0) {
            firsts(before)
        } else {
            firsts(before).push(entries.last())
        }
    }
}

/// The first entry of each key is what `lookup` finds; where no key stands twice, that is every
/// entry.
pub proof fn lemma_firsts<W>(entries: Seq<(Seq<char>, W)>)
    ensures
        distinct_keys(firsts(entries)),
        forall|key: Seq<char>| #[trigger] lookup(firsts(entries), key) == lookup(entries, key),
        distinct_keys(entries) ==> firsts(entries) == entries,
    decreases entries.len(),
{
    if entries.len() > 0 {
        let before = entries.drop_last();
        let (key, value) = entries.last();
        let one = seq![(key, value)];
        lemma_firsts(before);
        lemma_lookup_has_key(before, key);
        lemma_lookup_in_both(before, one);
        lemma_lookup_in_both(firsts(before), one);
        lemma_lookup_in_one(key, value);
        assert(before + one =~= entries);
        assert(firsts(before) + one =~= firsts(before).push((key, value)));
        assert forall|other: Seq<char>| #[trigger]
            lookup(firsts(entries), other) == lookup(entries, other) by {
            assert(lookup(firsts(before), other) == lookup(before, other));
            assert(lookup(before + one, other) == lookup(entries, other));
        }
        if !has_key(before, key) {
            lemma_lookup_has_key(firsts(before), key);
            assert(lookup(firsts(before), key) == lookup(before, key));
            assert(!has_key(firsts(before), key));
        }
        if distinct_keys(entries) {
            assert(!has_key(before, key)) by {
                if has_key(before, key) {
                    let i = choose|i: int| 0 <= i < before.len() && (#[trigger] before[i]).0 == key;
                    assert(entries[i].0 != entries[entries.len() - 1].0);
                }
            }
            assert(distinct_keys(before)) by {
                assert forall|i: int, j: int| 0 <= i < j < before.len() implies before[i].0
                    != before[j].0 by {
                    assert(entries[i].0 != entries[j].0);
                }
            }
            assert(before.push((key, value)) =~= entries);
        }
    }
}

/// Two lists with the same entries, each with no key twice, have the same values by their keys.
pub proof fn lemma_same_entries<W>(
    left: Seq<(Seq<char>, W)>,
    right: Seq<(Seq<char>, W)>,
    key: Seq<char>,
)
    requires
        distinct_keys(left),
        distinct_keys(right),
        left.to_multiset() == right.to_multiset(),
    ensures
        lookup(left, key) == lookup(right, key),
{
    if lookup(left, key) is Some {
        lemma_found_in_same(left, right, key);
    } else if lookup(right, key) is Some {
        lemma_found_in_same(right, left, key);
    }
}

proof fn lemma_found_in_same<W>(
    left: Seq<(Seq<char>, W)>,
    right: Seq<(Seq<char>, W)>,
    key: Seq<char>,
)
    requires
        distinct_keys(right),
        left.to_multiset() == right.to_multiset(),
        lookup(left, key) is Some,
    ensures
        lookup(left, key) == lookup(right, key),
{
    broadcast use vstd::seq_lib::group_to_multiset_ensures;

    lemma_lookup_has_key(left, key);
    let at = first_position(left, key);
    let value = left[at].1;
    lemma_first_entry(left, key, value, at);
    assert(left.contains((key, value)));
    assert(left.to_multiset().count((key, value)) > 0);
    assert(right.contains((key, value)));
    let place = right.index_of((key, value));
    assert forall|i: int| 0 <= i < place implies (#[trigger] right[i]).0 != key by {
        assert(right[i].0 != right[place].0);
    }
    lemma_first_entry(right, key, value, place);
}

/// A table from texts to values. Its view is the sequence of its entries, in the order in which
/// their keys came.
#[derive(Debug)]
pub struct TextMap<V: View> {
    entries: Vec<(String, V)>,
}

impl<V: View> View for TextMap<V> {
    type V = Seq<(Seq<char>, V::V)>;

    closed spec fn view(&self) -> Seq<(Seq<char>, V::V)> {
        entry_views(self.entries@)
    }
}

impl<V: View> TextMap<V> {
    /// No key stands twice.
    #[verifier::type_invariant]
    pub open spec fn well_formed(self) -> bool {
        distinct_keys(self@)
    }

    /// The empty table.
    pub fn new() -> (map: Self)
        ensures
            map@ == Seq::<(Seq<char>, V::V)>::empty(),
            distinct_keys(map@),
    {
        let map = TextMap { entries: Vec::new() };
        assert(map@ =~= Seq::<(Seq<char>, V::V)>::empty());
        map
    }

    /// The number of entries. No key stands twice among them.
    pub fn len(&self) -> (n: usize)
        ensures
            n == self@.len(),
            distinct_keys(self@),
    {
        proof {
            use_type_invariant(self);
        }
        self.entries.len()
    }

    /// Whether there is no entry.
    pub fn is_empty(&self) -> (r: bool)
        ensures
            r == (self@.len() == 0),
    {
        self.entries.len() == 0
    }

    /// The key of the entry at position `i`.
    pub fn key_at(&self, i: usize) -> (key: &String)
        requires
            i < self@.len(),
        ensures
            key@ == self@[i as int].0,
    {
        &self.entries[i].0
    }

    /// The value of the entry at position `i`.
    pub fn value_at(&self, i: usize) -> (value: &V)
        requires
            i < self@.len(),
        ensures
            value@ == self@[i as int].1,
    {
        &self.entries[i].1
    }

    /// The position of the entry for `key`, or the number of entries.
    fn position(&self, key: &str) -> (at: usize)
        ensures
            at <= self@.len(),
            at < self@.len() ==> self@[at as int].0 == key@,
            forall|i: int| 0 <= i < at ==> (#[trigger] self@[i]).0 != key@,
    {
        let wanted = key.to_owned();
        let mut at: usize = 0;
        while at < self.entries.len()
            invariant
                wanted@ == key@,
                at <= self@.len(),
                self@ == entry_views(self.entries@),
                forall|i: int| 0 <= i < at ==> (#[trigger] self@[i]).0 != key@,
            decreases self@.len() - at,
        {
            if self.entries[at].0 == wanted {
                return at;
            }
            at = at + 1;
        }
        at
    }

    /// The value for `key`.
    pub fn get(&self, key: &str) -> (r: Option<&V>)
        ensures
            match r {
                Some(value) => lookup(self@, key@) == Some(value@),
                None => lookup(self@, key@) is None,
            },
    {
        let at = self.position(key);
        if at < self.entries.len() {
            proof {
                lemma_first_entry(self@, key@, self@[at as int].1, at as int);
            }
            Some(&self.entries[at].1)
        } else {
            proof {
                lemma_lookup_has_key(self@, key@);
            }
            None
        }
    }

    /// Whether there is an entry for `key`.
    pub fn contains_key(&self, key: &str) -> (r: bool)
        ensures
            r == has_key(self@, key@),
    {
        let at = self.position(key);
        at < self.entries.len()
    }

    /// Writes `value` for `key`: in the place of the entry for it, or at the end.
    pub fn insert(&mut self, key: String, value: V)
        ensures
            final(self)@ == with_entry(old(self)@, key@, value@),
            distinct_keys(final(self)@),
    {
        proof {
            use_type_invariant(&*self);
        }
        let at = self.position(key.as_str());
        let ghost before = self@;
        let ghost pair = (key, value);
        let mut entries: Vec<(String, V)> = Vec::new();
        std::mem::swap(&mut entries, &mut self.entries);
        proof {
            lemma_write_keeps_keys_distinct(before, pair.0@, pair.1@);
        }
        if at < entries.len() {
            proof {
                lemma_first_entry(before, pair.0@, pair.1@, at as int);
            }
            entries.set(at, (key, value));
        } else {
            proof {
                lemma_no_entry(before, pair.0@, pair.1@);
            }
            entries.push((key, value));
        }
        assert(entry_views(entries@) =~= with_entry(before, pair.0@, pair.1@));
        self.entries = entries;
    }

    /// Keeps the entries that meet the condition, in their order.
    pub(crate) fn retain<F: Fn(&String, &V) -> bool>(
        &mut self,
        keep: F,
        condition: Ghost<spec_fn((Seq<char>, V::V)) -> bool>,
    )
        requires
            forall|key: &String, value: &V| #[trigger] keep.requires((key, value)),
            forall|key: &String, value: &V, r: bool| #[trigger]
                keep.ensures((key, value), r) ==> r == condition@((key@, value@)),
        ensures
            final(self)@ == old(self)@.filter(condition@),
            distinct_keys(final(self)@),
    {
        proof {
            use_type_invariant(&*self);
            lemma_filter_keeps_keys_distinct(self@, condition@);
        }
        let ghost before = self@;
        let mut entries: Vec<(String, V)> = Vec::new();
        std::mem::swap(&mut entries, &mut self.entries);
        let mut at: usize = 0;
        let ghost mut seen: int = 0;
        proof {
            reveal(Seq::filter);
            assert(before.take(0).filter(condition@) + before.skip(0) =~= before);
        }
        while at < entries.len()
            invariant
                forall|key: &String, value: &V| #[trigger] keep.requires((key, value)),
                forall|key: &String, value: &V, r: bool| #[trigger]
                    keep.ensures((key, value), r) ==> r == condition@((key@, value@)),
                0 <= seen <= before.len(),
                at == before.take(seen).filter(condition@).len(),
                entry_views(entries@) == before.take(seen).filter(condition@) + before.skip(seen),
            decreases entries@.len() - at,
        {
            let kept = keep(&entries[at].0, &entries[at].1);
            let ghost pairs = entries@;
            proof {
                reveal(Seq::filter);
                assert(entry_views(pairs)[at as int] == before[seen]);
                assert(before.take(seen + 1).drop_last() =~= before.take(seen));
            }
            if kept {
                at = at + 1;
                assert(entry_views(pairs) =~= before.take(seen + 1).filter(condition@)
                    + before.skip(seen + 1));
            } else {
                entries.remove(at);
                assert(entry_views(entries@) =~= entry_views(pairs).remove(at as int));
                assert(entry_views(entries@) =~= before.take(seen + 1).filter(condition@)
                    + before.skip(seen + 1));
            }
            proof {
                seen = seen + 1;
            }
        }
        proof {
            assert(seen == before.len()) by {
                assert(entry_views(entries@).len() == at + (before.len() - seen));
            }
            assert(before.take(seen) =~= before);
            assert(entry_views(entries@) =~= before.filter(condition@));
        }
        self.entries = entries;
    }

    /// Takes the entry for `key` away.
    pub fn remove(&mut self, key: &str)
        ensures
            final(self)@ == without_key(old(self)@, key@),
            distinct_keys(final(self)@),
    {
        let unwanted = key.to_owned();
        let ghost condition = other_than::<V::V>(key@);
        let keep = |k: &String, _v: &V| -> (r: bool)
            ensures
                r == (k@ != key@),
            { !(*k == unwanted) };
        self.retain(keep, Ghost(condition));
    }
}

} // verus!
