//! A map with text keys, held in the order of its keys.

use vstd::prelude::*;

use crate::text::{lemma_text_irreflexive, lemma_text_transitive, place, text_before, Place};

verus! {

/// A map from text to values. The entries lie in the order of their keys, each
/// key once.
#[derive(Debug, PartialEq)]
pub struct TextMap<V> {
    entries: Vec<(String, V)>,
}

/// Whether the keys of `entries` increase strictly.
pub open spec fn keys_increase<V>(entries: Seq<(String, V)>) -> bool {
    forall|i: int, j: int|
        0 <= i < j < entries.len() ==> text_before(#[trigger] entries[i].0@, #[trigger] entries[j].0@)
}

/// Whether no key occurs twice in `entries`.
pub open spec fn keys_distinct<V>(entries: Seq<(String, V)>) -> bool {
    forall|i: int, j: int|
        0 <= i < j < entries.len() ==> #[trigger] entries[i].0@ != #[trigger] entries[j].0@
}

/// Whether `key` is the key of one of `entries`.
pub open spec fn has_key<V>(entries: Seq<(String, V)>, key: Seq<char>) -> bool {
    exists|i: int| 0 <= i < entries.len() && #[trigger] entries[i].0@ == key
}

/// The map that `entries` write one after the other: of two entries with one
/// key the later counts.
pub open spec fn map_of<V>(entries: Seq<(String, V)>) -> Map<Seq<char>, V>
    decreases entries.len(),
{
    if entries.len() == 0 {
        Map::empty()
    } else {
        map_of(entries.drop_last()).insert(entries.last().0@, entries.last().1)
    }
}

/// The map that `pairs` write one after the other: of two pairs with one name
/// the later counts.
pub open spec fn pairs_map<V>(pairs: Seq<(Seq<char>, V)>) -> Map<Seq<char>, V>
    decreases pairs.len(),
{
    if pairs.len() == 0 {
        Map::empty()
    } else {
        pairs_map(pairs.drop_last()).insert(pairs.last().0, pairs.last().1)
    }
}

/// Whether no name occurs twice in `pairs`.
pub open spec fn names_distinct<V>(pairs: Seq<(Seq<char>, V)>) -> bool {
    forall|i: int, j: int|
        0 <= i < j < pairs.len() ==> (#[trigger] pairs[i]).0 != (#[trigger] pairs[j]).0
}

/// A map holds the keys of the entries that write it.
pub proof fn lemma_map_of_keys<V>(entries: Seq<(String, V)>)
    ensures
        forall|key: Seq<char>| #[trigger]
            map_of(entries).contains_key(key) <==> has_key(entries, key),
    decreases entries.len(),
{
    if entries.len() > 0 {
        let init = entries.drop_last();
        lemma_map_of_keys(init);
        assert forall|key: Seq<char>| #[trigger]
            map_of(entries).contains_key(key) <==> has_key(entries, key) by {
            if has_key(init, key) {
                let i = choose|i: int| 0 <= i < init.len() && #[trigger] init[i].0@ == key;
                assert(entries[i].0@ == key);
            }
            if key == entries.last().0@ {
                assert(entries[entries.len() - 1].0@ == key);
            }
            if has_key(entries, key) && key != entries.last().0@ {
                let i = choose|i: int| 0 <= i < entries.len() && #[trigger] entries[i].0@ == key;
                assert(i < entries.len() - 1);
                assert(init[i].0@ == key);
                assert(has_key(init, key));
                assert(map_of(init).contains_key(key));
            }
            if map_of(entries).contains_key(key) && key != entries.last().0@ {
                assert(map_of(init).contains_key(key));
            }
        }
    }
}

/// Where no key occurs twice, each entry stands in the map.
pub proof fn lemma_map_of_values<V>(entries: Seq<(String, V)>)
    requires
        keys_distinct(entries),
    ensures
        forall|i: int|
            0 <= i < entries.len() ==> map_of(entries)[#[trigger] entries[i].0@] == entries[i].1,
    decreases entries.len(),
{
    if entries.len() > 0 {
        let init = entries.drop_last();
        assert(keys_distinct(init)) by {
            assert forall|i: int, j: int| 0 <= i < j < init.len() implies #[trigger] init[i].0@
                != #[trigger] init[j].0@ by {
                assert(entries[i].0@ != entries[j].0@);
            }
        }
        lemma_map_of_values(init);
        assert forall|i: int| 0 <= i < entries.len() implies map_of(entries)[#[trigger] entries[i].0@]
            == entries[i].1 by {
            if i < entries.len() - 1 {
                assert(entries[i].0@ != entries[entries.len() - 1].0@);
                assert(init[i].0@ == entries[i].0@);
            }
        }
    }
}

/// A map has as many keys as entries were written exactly when no key was
/// written twice.
pub proof fn lemma_map_of_len<V>(entries: Seq<(String, V)>)
    ensures
        map_of(entries).dom().finite(),
        map_of(entries).dom().len() <= entries.len(),
        map_of(entries).dom().len() == entries.len() <==> keys_distinct(entries),
    decreases entries.len(),
{
    if entries.len() > 0 {
        let init = entries.drop_last();
        let last = entries.last().0@;
        lemma_map_of_len(init);
        lemma_map_of_keys(init);
        assert(map_of(entries).dom() =~= map_of(init).dom().insert(last));
        if keys_distinct(entries) {
            assert forall|i: int, j: int| 0 <= i < j < init.len() implies #[trigger] init[i].0@
                != #[trigger] init[j].0@ by {
                assert(entries[i].0@ != entries[j].0@);
            }
            assert(!has_key(init, last)) by {
                if has_key(init, last) {
                    let i = choose|i: int| 0 <= i < init.len() && #[trigger] init[i].0@ == last;
                    assert(entries[i].0@ != entries[entries.len() - 1].0@);
                }
            }
        }
        if keys_distinct(init) && !has_key(init, last) {
            assert forall|i: int, j: int|
                0 <= i < j < entries.len() implies #[trigger] entries[i].0@
                != #[trigger] entries[j].0@ by {
                assert(init[i].0@ == entries[i].0@);
                if j < init.len() {
                    assert(init[j].0@ == entries[j].0@);
                }
            }
        }
    }
}

/// Increasing keys are distinct.
pub proof fn lemma_increasing_distinct<V>(entries: Seq<(String, V)>)
    requires
        keys_increase(entries),
    ensures
        keys_distinct(entries),
{
    assert forall|i: int, j: int| 0 <= i < j < entries.len() implies #[trigger] entries[i].0@
        != #[trigger] entries[j].0@ by {
        lemma_text_irreflexive(entries[i].0@);
        assert(text_before(entries[i].0@, entries[j].0@));
    }
}

/// Whether the names of `pairs` increase strictly.
pub open spec fn names_increase<V>(pairs: Seq<(Seq<char>, V)>) -> bool {
    forall|i: int, j: int|
        0 <= i < j < pairs.len() ==> text_before((#[trigger] pairs[i]).0, (#[trigger] pairs[j]).0)
}

/// Whether `name` is the name of one of `pairs`.
spec fn has_name<V>(pairs: Seq<(Seq<char>, V)>, name: Seq<char>) -> bool {
    exists|i: int| 0 <= i < pairs.len() && (#[trigger] pairs[i]).0 == name
}

proof fn lemma_pairs_map<V>(pairs: Seq<(Seq<char>, V)>)
    requires
        names_increase(pairs),
    ensures
        forall|name: Seq<char>| #[trigger]
            pairs_map(pairs).contains_key(name) <==> has_name(pairs, name),
        forall|i: int|
            0 <= i < pairs.len() ==> pairs_map(pairs)[(#[trigger] pairs[i]).0] == pairs[i].1,
        pairs_map(pairs).dom().finite(),
        pairs_map(pairs).dom().len() == pairs.len(),
    decreases pairs.len(),
{
    if pairs.len() > 0 {
        let init = pairs.drop_last();
        let last = pairs.len() - 1;
        assert(names_increase(init)) by {
            assert forall|i: int, j: int| 0 <= i < j < init.len() implies text_before(
                (#[trigger] init[i]).0,
                (#[trigger] init[j]).0,
            ) by {
                assert(text_before(pairs[i].0, pairs[j].0));
            }
        }
        lemma_pairs_map(init);
        assert forall|i: int| 0 <= i < last implies (#[trigger] pairs[i]).0 != pairs[last].0 by {
            lemma_text_irreflexive(pairs[i].0);
            assert(text_before(pairs[i].0, pairs[last].0));
        }
        assert forall|name: Seq<char>| #[trigger]
            pairs_map(pairs).contains_key(name) <==> has_name(pairs, name) by {
            assert(pairs_map(init).contains_key(name) <==> has_name(init, name));
            if has_name(init, name) {
                let i = choose|i: int| 0 <= i < init.len() && (#[trigger] init[i]).0 == name;
                assert(pairs[i].0 == name);
            }
            if name == pairs.last().0 {
                assert(pairs[last].0 == name);
            }
            if has_name(pairs, name) && name != pairs.last().0 {
                let i = choose|i: int| 0 <= i < pairs.len() && (#[trigger] pairs[i]).0 == name;
                assert(init[i].0 == name);
            }
        }
        assert forall|i: int| 0 <= i < pairs.len() implies pairs_map(pairs)[(#[trigger] pairs[i]).0]
            == pairs[i].1 by {
            if i < last {
                assert(init[i] == pairs[i]);
            }
        }
        assert(!has_name(init, pairs.last().0)) by {
            if has_name(init, pairs.last().0) {
                let i = choose|i: int|
                    0 <= i < init.len() && (#[trigger] init[i]).0 == pairs.last().0;
                assert(pairs[i].0 == pairs[last].0);
            }
        }
        assert(pairs_map(pairs).dom() =~= pairs_map(init).dom().insert(pairs.last().0));
    }
}

/// A map fixes the pairs that write it in the order of their names.
pub proof fn lemma_map_fixes_pairs<V>(a: Seq<(Seq<char>, V)>, b: Seq<(Seq<char>, V)>)
    requires
        names_increase(a),
        names_increase(b),
        pairs_map(a) == pairs_map(b),
    ensures
        a == b,
{
    lemma_pairs_map(a);
    lemma_pairs_map(b);
    assert forall|name: Seq<char>| has_name(a, name) <==> has_name(b, name) by {
        assert(pairs_map(a).contains_key(name) <==> has_name(a, name));
        assert(pairs_map(b).contains_key(name) <==> has_name(b, name));
    }
    assert forall|i: int| 0 <= i < a.len() implies a[i] == b[i] by {
        lemma_same_names(a, b, i);
        assert(pairs_map(a)[a[i].0] == a[i].1);
        assert(pairs_map(b)[b[i].0] == b[i].1);
    }
    assert(a =~= b);
}

proof fn lemma_same_names<V>(a: Seq<(Seq<char>, V)>, b: Seq<(Seq<char>, V)>, n: int)
    requires
        names_increase(a),
        names_increase(b),
        a.len() == b.len(),
        0 <= n < a.len(),
        forall|name: Seq<char>| has_name(a, name) <==> has_name(b, name),
    ensures
        a[n].0 == b[n].0,
    decreases n,
{
    assert(has_name(a, a[n].0));
    assert(has_name(b, b[n].0));
    let i = choose|i: int| 0 <= i < b.len() && (#[trigger] b[i]).0 == a[n].0;
    let j = choose|j: int| 0 <= j < a.len() && (#[trigger] a[j]).0 == b[n].0;
    lemma_text_irreflexive(a[n].0);
    lemma_text_irreflexive(b[n].0);
    if i < n {
        lemma_same_names(a, b, i);
        assert(text_before(a[i].0, a[n].0));
    }
    if j < n {
        lemma_same_names(a, b, j);
        assert(text_before(b[j].0, b[n].0));
    }
    if i > n && j > n {
        assert(text_before(b[n].0, b[i].0));
        assert(text_before(a[n].0, a[j].0));
        lemma_text_transitive(a[n].0, b[n].0, a[n].0);
    }
}

impl<V> TextMap<V> {
    #[verifier::type_invariant]
    spec fn inv(self) -> bool {
        keys_increase(self.entries@)
    }

    /// The entries in the order of their keys.
    pub closed spec fn entries(self) -> Seq<(String, V)> {
        self.entries@
    }
}

impl<V> View for TextMap<V> {
    type V = Map<Seq<char>, V>;

    open spec fn view(&self) -> Map<Seq<char>, V> {
        map_of(self.entries())
    }
}

impl<V: Clone> Clone for TextMap<V> {
    fn clone(&self) -> (copy: Self)
        ensures
            copy.entries().len() == self.entries().len(),
            forall|i: int|
                #![trigger copy.entries()[i]]
                0 <= i < self.entries().len() ==> copy.entries()[i].0 == self.entries()[i].0
                    && cloned::<V>(self.entries()[i].1, copy.entries()[i].1),
    {
        proof {
            use_type_invariant(self);
        }
        let mut entries: Vec<(String, V)> = Vec::new();
        let mut i: usize = 0;
        while i < self.entries.len()
            invariant
                i <= self.entries@.len(),
                entries@.len() == i,
                forall|k: int|
                    #![trigger entries@[k]]
                    0 <= k < i ==> entries@[k].0 == self.entries@[k].0 && cloned::<V>(
                        self.entries@[k].1,
                        entries@[k].1,
                    ),
            decreases self.entries@.len() - i,
        {
            entries.push((self.entries[i].0.clone(), self.entries[i].1.clone()));
            i = i + 1;
        }
        assert(keys_increase(entries@));
        TextMap { entries }
    }
}

impl<V> TextMap<V> {
    /// The map without entries.
    pub fn new() -> (map: Self)
        ensures
            map@ == Map::<Seq<char>, V>::empty(),
            map.entries() == Seq::<(String, V)>::empty(),
    {
        TextMap { entries: Vec::new() }
    }

    /// The number of keys.
    pub fn len(&self) -> (n: usize)
        ensures
            n == self@.dom().len(),
            n == self.entries().len(),
            self@.dom().finite(),
            keys_increase(self.entries()),
    {
        proof {
            use_type_invariant(self);
            lemma_increasing_distinct(self.entries@);
            lemma_map_of_len(self.entries@);
        }
        self.entries.len()
    }

    /// Whether there is no key.
    pub fn is_empty(&self) -> (r: bool)
        ensures
            r == (self@ == Map::<Seq<char>, V>::empty()),
            r == (self.entries().len() == 0),
    {
        proof {
            lemma_map_of_keys(self.entries@);
            if self.entries@.len() > 0 {
                assert(has_key(self.entries@, self.entries@[0].0@));
                assert(self@.contains_key(self.entries@[0].0@));
            }
        }
        self.entries.is_empty()
    }

    /// Sets the value of `key`.
    pub fn insert(&mut self, key: String, value: V)
        ensures
            final(self)@ == old(self)@.insert(key@, value),
    {
        proof {
            use_type_invariant(&*self);
        }
        let mut entries: Vec<(String, V)> = Vec::new();
        core::mem::swap(&mut entries, &mut self.entries);
        let ghost before = entries@;
        let ghost entry = (key, value);
        let mut i: usize = 0;
        while i < entries.len() && place(entries[i].0.as_str(), key.as_str()) == Place::Before
            invariant
                entries@ == before,
                i <= entries@.len(),
                forall|k: int| 0 <= k < i ==> text_before(#[trigger] entries@[k].0@, key@),
            decreases entries@.len() - i,
        {
            i = i + 1;
        }
        if i < entries.len() && place(entries[i].0.as_str(), key.as_str()) == Place::Same {
            entries[i] = (key, value);
            assert(entries@ == before.update(i as int, entry));
        } else {
            assert(i < before.len() ==> text_before(key@, before[i as int].0@));
            entries.insert(i, (key, value));
            assert(entries@ == before.insert(i as int, entry));
        }
        proof {
            lemma_insert(before, entries@, i as int, entry);
        }
        self.entries = entries;
    }

    /// The value of `key`.
    pub fn get(&self, key: &str) -> (r: Option<&V>)
        ensures
            r == (if self@.contains_key(key@) {
                Some(&self@[key@])
            } else {
                None
            }),
    {
        proof {
            use_type_invariant(self);
            lemma_increasing_distinct(self.entries@);
            lemma_map_of_keys(self.entries@);
            lemma_map_of_values(self.entries@);
        }
        let mut i: usize = 0;
        while i < self.entries.len()
            invariant
                i <= self.entries@.len(),
                forall|k: int| 0 <= k < i ==> #[trigger] self.entries@[k].0@ != key@,
                forall|k: int|
                    0 <= k < self.entries@.len() ==> self@[#[trigger] self.entries@[k].0@]
                        == self.entries@[k].1,
                forall|k: Seq<char>| #[trigger]
                    self@.contains_key(k) <==> has_key(self.entries@, k),
            decreases self.entries@.len() - i,
        {
            if place(self.entries[i].0.as_str(), key) == Place::Same {
                assert(self.entries@[i as int].0@ == key@);
                return Some(&self.entries[i].1);
            }
            i = i + 1;
        }
        assert(!has_key(self.entries@, key@));
        None
    }

    /// The entries in the order of their keys.
    pub fn into_entries(self) -> (r: Vec<(String, V)>)
        ensures
            r@ == self.entries(),
            keys_increase(r@),
    {
        proof {
            use_type_invariant(&self);
        }
        self.entries
    }
}

/// Putting an entry at its place, or in the place of the entry with its key,
/// keeps the order and sets the value of its key.
proof fn lemma_insert<V>(
    before: Seq<(String, V)>,
    after: Seq<(String, V)>,
    i: int,
    entry: (String, V),
)
    requires
        keys_increase(before),
        0 <= i <= before.len(),
        forall|k: int| 0 <= k < i ==> text_before(#[trigger] before[k].0@, entry.0@),
        ({
            ||| i < before.len() && before[i].0@ == entry.0@ && after == before.update(i, entry)
            ||| (i < before.len() ==> text_before(entry.0@, before[i].0@)) && after
                == before.insert(i, entry)
        }),
    ensures
        keys_increase(after),
        map_of(after) == map_of(before).insert(entry.0@, entry.1),
{
    let key = entry.0@;
    let shift: int = if after.len() > before.len() {
        1
    } else {
        0
    };
    assert(after[i] == entry);
    assert forall|k: int| i + 1 <= k < after.len() implies #[trigger] after[k] == before[k - shift]
        && text_before(key, before[k - shift].0@) by {
        if k - shift > i {
            assert(text_before(before[i].0@, before[k - shift].0@));
            if shift == 1 {
                lemma_text_transitive(key, before[i].0@, before[k - shift].0@);
            }
        }
    }
    assert forall|j: int, k: int| 0 <= j < k < after.len() implies text_before(
        #[trigger] after[j].0@,
        #[trigger] after[k].0@,
    ) by {
        if k < i {
            assert(text_before(before[j].0@, before[k].0@));
        } else if j < i && k > i {
            assert(after[k] == before[k - shift]);
            assert(text_before(before[j].0@, before[k - shift].0@));
        } else if j > i {
            assert(after[j] == before[j - shift]);
            assert(after[k] == before[k - shift]);
            assert(text_before(before[j - shift].0@, before[k - shift].0@));
        } else if j == i {
            assert(after[k] == before[k - shift]);
        }
    }
    lemma_increasing_distinct(before);
    lemma_increasing_distinct(after);
    lemma_map_of_keys(before);
    lemma_map_of_keys(after);
    lemma_map_of_values(before);
    lemma_map_of_values(after);
    let m = map_of(after);
    let n = map_of(before).insert(key, entry.1);
    assert(after[i].0@ == key);
    assert forall|k: Seq<char>| (#[trigger] m.contains_key(k)) == n.contains_key(k) && (m.contains_key(k)
        ==> m[k] == n[k]) by {
        if has_key(after, k) {
            let j = choose|j: int| 0 <= j < after.len() && #[trigger] after[j].0@ == k;
            if j < i {
                assert(before[j].0@ == k);
            } else if j > i {
                assert(before[j - shift].0@ == k);
            }
            if k == key && j != i {
                assert(after[j].0@ != after[i].0@);
            }
        }
        if has_key(before, k) {
            let j = choose|j: int| 0 <= j < before.len() && #[trigger] before[j].0@ == k;
            if j < i {
                assert(after[j].0@ == k);
            } else if j == i && shift == 0 {
                assert(after[i].0@ == k);
            } else {
                assert(after[j + shift].0@ == k);
            }
        }
    }
    assert(m =~= n);
}

// ---------------------------------------------------------------------------
// Laws
// ---------------------------------------------------------------------------

/// A map holds what was last written under each key, and no other key.
pub proof fn law_last_entry_counts<V>(entries: Seq<(String, V)>, key: Seq<char>, i: int)
    requires
        0 <= i < entries.len(),
        entries[i].0@ == key,
        forall|j: int| i < j < entries.len() ==> #[trigger] entries[j].0@ != key,
    ensures
        map_of(entries).contains_key(key),
        map_of(entries)[key] == entries[i].1,
        forall|other: Seq<char>| #[trigger]
            map_of(entries).contains_key(other) ==> exists|j: int|
                0 <= j < entries.len() && #[trigger] entries[j].0@ == other,
    decreases entries.len(),
{
    lemma_map_of_keys(entries);
    assert(has_key(entries, key));
    if i < entries.len() - 1 {
        let init = entries.drop_last();
        assert(init[i] == entries[i]);
        assert forall|j: int| i < j < init.len() implies #[trigger] init[j].0@ != key by {
            assert(entries[j].0@ != key);
        }
        law_last_entry_counts(init, key, i);
        assert(entries[entries.len() - 1].0@ != key);
    }
}

/// A map holds the value of the last pair with each name, and no other name.
pub proof fn law_last_pair_counts<V>(pairs: Seq<(Seq<char>, V)>, name: Seq<char>)
    ensures
        pairs_map(pairs).contains_key(name) <==> exists|i: int|
            0 <= i < pairs.len() && (#[trigger] pairs[i]).0 == name,
        forall|i: int|
            {
                &&& 0 <= i < pairs.len()
                &&& (#[trigger] pairs[i]).0 == name
                &&& forall|j: int| i < j < pairs.len() ==> (#[trigger] pairs[j]).0 != name
            } ==> pairs_map(pairs)[name] == pairs[i].1,
    decreases pairs.len(),
{
    if pairs.len() > 0 {
        let init = pairs.drop_last();
        let last = pairs.len() - 1;
        law_last_pair_counts(init, name);
        if pairs.last().0 == name {
            assert(pairs[last].0 == name);
        } else {
            if pairs_map(init).contains_key(name) {
                let i = choose|i: int| 0 <= i < init.len() && (#[trigger] init[i]).0 == name;
                assert(pairs[i].0 == name);
            }
            if exists|i: int| 0 <= i < pairs.len() && (#[trigger] pairs[i]).0 == name {
                let i = choose|i: int| 0 <= i < pairs.len() && (#[trigger] pairs[i]).0 == name;
                assert(init[i].0 == name);
            }
        }
        assert forall|i: int|
            {
                &&& 0 <= i < pairs.len()
                &&& (#[trigger] pairs[i]).0 == name
                &&& forall|j: int| i < j < pairs.len() ==> (#[trigger] pairs[j]).0 != name
            } implies pairs_map(pairs)[name] == pairs[i].1 by {
            if i < last {
                assert(pairs[last].0 != name);
                assert(init[i].0 == name);
                assert forall|j: int| i < j < init.len() implies (#[trigger] init[j]).0 != name by {
                    assert(pairs[j].0 != name);
                }
            }
        }
    }
}

/// Names that increase are in the order of text, and so no name comes twice.
pub proof fn law_names_in_order<V>(pairs: Seq<(Seq<char>, V)>, i: int, j: int)
    requires
        names_increase(pairs),
        0 <= i < j < pairs.len(),
    ensures
        text_before(pairs[i].0, pairs[j].0),
        pairs[i].0 != pairs[j].0,
{
    lemma_text_irreflexive(pairs[i].0);
}

/// Keys that increase are in the order of text.
pub proof fn law_keys_in_order<V>(entries: Seq<(String, V)>, i: int, j: int)
    requires
        keys_increase(entries),
        0 <= i < j < entries.len(),
    ensures
        text_before(entries[i].0@, entries[j].0@),
{
}

} // verus!
