//! A map whose keys are texts, kept in the order of its keys.

use vstd::prelude::*;

use crate::order::{order_is_strict, order_is_total, order_is_transitive, precedes, text_precedes};
use crate::text::same_text;

verus! {

/// One key of a map with its value.
#[derive(Debug)]
pub struct TextEntry<V> {
    pub key: String,
    pub value: V,
}

/// A map from texts to values. No key occurs twice, and the entries stand in
/// the order of their keys.
#[derive(Debug)]
pub struct TextMap<V> {
    entries: Vec<TextEntry<V>>,
}

/// The entries stand in the order of their keys.
pub open spec fn in_key_order<V>(s: Seq<TextEntry<V>>) -> bool {
    forall|i: int, j: int|
        0 <= i < j < s.len() ==> precedes(#[trigger] s[i].key@, #[trigger] s[j].key@)
}

/// `key` is the key of an entry.
pub open spec fn is_key<V>(s: Seq<TextEntry<V>>, key: Seq<char>) -> bool {
    exists|i: int| 0 <= i < s.len() && #[trigger] s[i].key@ == key
}

/// The index of the entry with the given key.
pub open spec fn index_of_key<V>(s: Seq<TextEntry<V>>, key: Seq<char>) -> int {
    choose|i: int| 0 <= i < s.len() && #[trigger] s[i].key@ == key
}

/// The map that a list of entries stands for.
pub open spec fn as_map<V>(s: Seq<TextEntry<V>>) -> Map<Seq<char>, V> {
    Map::new(|key: Seq<char>| is_key(s, key), |key: Seq<char>| s[index_of_key(s, key)].value)
}

proof fn lemma_entry_found<V>(s: Seq<TextEntry<V>>, i: int)
    requires
        in_key_order(s),
        0 <= i < s.len(),
    ensures
        is_key(s, s[i].key@),
        index_of_key(s, s[i].key@) == i,
        as_map(s).dom().contains(s[i].key@),
        as_map(s)[s[i].key@] == s[i].value,
{
    let k = index_of_key(s, s[i].key@);
    order_is_strict(s[i].key@, s[i].key@);
    if k < i {
        assert(precedes(s[k].key@, s[i].key@));
    }
    if i < k {
        assert(precedes(s[i].key@, s[k].key@));
    }
}

/// There are as many keys as entries.
proof fn lemma_keys_are_counted<V>(s: Seq<TextEntry<V>>)
    requires
        in_key_order(s),
    ensures
        as_map(s).dom().finite(),
        as_map(s).dom().len() == s.len(),
    decreases s.len(),
{
    if s.len() == 0 {
        assert(as_map(s).dom() =~= Set::empty());
    } else {
        let front = s.drop_last();
        let last = s.last().key@;
        assert forall|i: int, j: int| 0 <= i < j < front.len() implies precedes(
            #[trigger] front[i].key@,
            #[trigger] front[j].key@,
        ) by {
            assert(precedes(s[i].key@, s[j].key@));
        }
        lemma_keys_are_counted(front);
        assert forall|key: Seq<char>| is_key(s, key) <==> is_key(front, key) || key == last by {
            assert(s[s.len() - 1].key@ == last);
            if is_key(front, key) {
                assert(s[index_of_key(front, key)].key@ == key);
            }
            if is_key(s, key) && key != last {
                assert(front[index_of_key(s, key)].key@ == key);
            }
        }
        if is_key(front, last) {
            let i = index_of_key(front, last);
            assert(precedes(s[i].key@, s[s.len() - 1].key@));
            order_is_strict(last, last);
        }
        assert(as_map(s).dom() =~= as_map(front).dom().insert(last));
    }
}

impl<V> TextMap<V> {
    /// The entries, in the order of their keys.
    pub closed spec fn listing(&self) -> Seq<TextEntry<V>> {
        self.entries@
    }

    #[verifier::type_invariant]
    spec fn well_ordered(self) -> bool {
        in_key_order(self.entries@)
    }
}

impl<V> View for TextMap<V> {
    type V = Map<Seq<char>, V>;

    open spec fn view(&self) -> Map<Seq<char>, V> {
        as_map(self.listing())
    }
}

impl<V> TextMap<V> {
    /// The map without entries.
    pub fn new() -> (r: Self)
        ensures
            r@ == Map::<Seq<char>, V>::empty(),
    {
        let r: TextMap<V> = TextMap { entries: Vec::new() };
        assert(r@ =~= Map::<Seq<char>, V>::empty());
        r
    }

    /// How many keys the map has.
    pub fn len(&self) -> (r: usize)
        ensures
            r == self.listing().len(),
            in_key_order(self.listing()),
            self@.dom().finite(),
            r == self@.dom().len(),
    {
        proof {
            use_type_invariant(self);
            lemma_keys_are_counted(self.entries@);
        }
        self.entries.len()
    }

    /// The entry at a place in the order of the keys.
    pub fn entry(&self, i: usize) -> (r: &TextEntry<V>)
        requires
            i < self.listing().len(),
        ensures
            *r == self.listing()[i as int],
            in_key_order(self.listing()),
            self@.dom().contains(r.key@),
            self@[r.key@] == r.value,
    {
        proof {
            use_type_invariant(self);
            lemma_entry_found(self.entries@, i as int);
        }
        &self.entries[i]
    }

    /// The first place whose key does not come before the given one.
    fn place(&self, key: &str) -> (r: usize)
        ensures
            r <= self.entries@.len(),
            forall|j: int| 0 <= j < r ==> precedes(#[trigger] self.entries@[j].key@, key@),
            r < self.entries@.len() ==> !precedes(self.entries@[r as int].key@, key@),
    {
        let mut i: usize = 0;
        while i < self.entries.len() && text_precedes(self.entries[i].key.as_str(), key)
            invariant
                i <= self.entries@.len(),
                forall|j: int| 0 <= j < i ==> precedes(#[trigger] self.entries@[j].key@, key@),
            decreases self.entries.len() - i,
        {
            i += 1;
        }
        i
    }

    /// The value of a key.
    pub fn get(&self, key: &str) -> (r: Option<&V>)
        ensures
            r is Some <==> self@.dom().contains(key@),
            r is Some ==> *r->0 == self@[key@],
    {
        proof {
            use_type_invariant(self);
        }
        let i: usize = self.place(key);
        if i < self.entries.len() && same_text(self.entries[i].key.as_str(), key) {
            proof {
                lemma_entry_found(self.entries@, i as int);
            }
            Some(&self.entries[i].value)
        } else {
            proof {
                lemma_absent(self.entries@, key@, i as int);
            }
            None
        }
    }

    /// Whether the map has a key.
    pub fn contains_key(&self, key: &str) -> (r: bool)
        ensures
            r == self@.dom().contains(key@),
    {
        self.get(key).is_some()
    }

    /// Gives a key a value, in place of the one that it may have had.
    pub fn insert(&mut self, key: String, value: V)
        ensures
            final(self)@ == old(self)@.insert(key@, value),
    {
        proof {
            use_type_invariant(&*self);
        }
        let i: usize = self.place(key.as_str());
        let ghost s = self.entries@;
        let ghost k = key@;
        let mut entries: Vec<TextEntry<V>> = Vec::new();
        core::mem::swap(&mut entries, &mut self.entries);
        if i < entries.len() && same_text(entries[i].key.as_str(), key.as_str()) {
            let gone = entries.remove(i);
            entries.insert(i, TextEntry { key, value });
            assert(entries@ =~= s.update(i as int, entries@[i as int]));
            proof {
                assert forall|a: int, b: int| 0 <= a < b < entries@.len() implies precedes(
                    #[trigger] entries@[a].key@,
                    #[trigger] entries@[b].key@,
                ) by {
                    assert(entries@[a].key@ == s[a].key@);
                    assert(entries@[b].key@ == s[b].key@);
                }
                lemma_replaced(s, entries@, i as int);
            }
        } else {
            entries.insert(i, TextEntry { key, value });
            proof {
                lemma_absent(s, k, i as int);
                lemma_inserted_in_order(s, entries@, i as int);
                lemma_inserted(s, entries@, i as int);
            }
        }
        core::mem::swap(&mut entries, &mut self.entries);
    }
}

impl<V: Clone> Clone for TextMap<V> {
    fn clone(&self) -> (r: Self)
        ensures
            r.listing().len() == self.listing().len(),
            forall|i: int|
                0 <= i < r.listing().len() ==> {
                    &&& #[trigger] r.listing()[i].key == self.listing()[i].key
                    &&& cloned(self.listing()[i].value, r.listing()[i].value)
                },
    {
        proof {
            use_type_invariant(self);
        }
        let mut entries: Vec<TextEntry<V>> = Vec::new();
        let n: usize = self.entries.len();
        let mut i: usize = 0;
        while i < n
            invariant
                i <= n,
                n == self.entries@.len(),
                entries@.len() == i,
                forall|j: int|
                    0 <= j < i ==> {
                        &&& #[trigger] entries@[j].key == self.entries@[j].key
                        &&& cloned(self.entries@[j].value, entries@[j].value)
                    },
            decreases n - i,
        {
            entries.push(
                TextEntry { key: self.entries[i].key.clone(), value: self.entries[i].value.clone() },
            );
            i += 1;
        }
        assert forall|a: int, b: int| 0 <= a < b < entries@.len() implies precedes(
            #[trigger] entries@[a].key@,
            #[trigger] entries@[b].key@,
        ) by {
            assert(entries@[a].key == self.entries@[a].key);
            assert(entries@[b].key == self.entries@[b].key);
        }
        TextMap { entries }
    }
}

proof fn lemma_absent<V>(s: Seq<TextEntry<V>>, key: Seq<char>, i: int)
    requires
        in_key_order(s),
        0 <= i <= s.len(),
        forall|j: int| 0 <= j < i ==> precedes(#[trigger] s[j].key@, key),
        i < s.len() ==> !precedes(s[i].key@, key) && s[i].key@ != key,
    ensures
        !is_key(s, key),
        i < s.len() ==> precedes(key, s[i].key@),
        forall|j: int| i <= j < s.len() ==> precedes(key, #[trigger] s[j].key@),
{
    order_is_strict(key, key);
    if i < s.len() {
        order_is_total(key, s[i].key@);
    }
    assert forall|j: int| i <= j < s.len() implies precedes(key, #[trigger] s[j].key@) by {
        if i < j {
            assert(precedes(s[i].key@, s[j].key@));
            order_is_transitive(key, s[i].key@, s[j].key@);
        }
    }
}

proof fn lemma_inserted_in_order<V>(s: Seq<TextEntry<V>>, t: Seq<TextEntry<V>>, i: int)
    requires
        in_key_order(s),
        0 <= i <= s.len(),
        t == s.insert(i, t[i]),
        forall|j: int| 0 <= j < i ==> precedes(#[trigger] s[j].key@, t[i].key@),
        forall|j: int| i <= j < s.len() ==> precedes(t[i].key@, #[trigger] s[j].key@),
    ensures
        in_key_order(t),
{
    assert forall|a: int, b: int| 0 <= a < b < t.len() implies precedes(
        #[trigger] t[a].key@,
        #[trigger] t[b].key@,
    ) by {
        if a < i && b < i {
            assert(t[a] == s[a] && t[b] == s[b]);
        } else if a < i && b == i {
            assert(t[a] == s[a]);
        } else if a < i {
            assert(t[a] == s[a] && t[b] == s[b - 1]);
            assert(precedes(s[a].key@, s[b - 1].key@));
        } else if a == i {
            assert(t[b] == s[b - 1]);
        } else {
            assert(t[a] == s[a - 1] && t[b] == s[b - 1]);
            assert(precedes(s[a - 1].key@, s[b - 1].key@));
        }
    }
}

proof fn lemma_inserted<V>(s: Seq<TextEntry<V>>, t: Seq<TextEntry<V>>, i: int)
    requires
        in_key_order(s),
        in_key_order(t),
        0 <= i <= s.len(),
        t == s.insert(i, t[i]),
        !is_key(s, t[i].key@),
    ensures
        as_map(t) == as_map(s).insert(t[i].key@, t[i].value),
{
    let k = t[i].key@;
    lemma_entry_found(t, i);
    assert forall|key: Seq<char>| key != k implies is_key(s, key) == is_key(t, key) && (is_key(
        s,
        key,
    ) ==> as_map(t)[key] == as_map(s)[key]) by {
        if is_key(s, key) {
            let a = index_of_key(s, key);
            let b = if a < i { a } else { a + 1 };
            assert(t[b] == s[a]);
            lemma_entry_found(t, b);
            lemma_entry_found(s, a);
        }
        if is_key(t, key) {
            let b = index_of_key(t, key);
            let a = if b < i { b } else { b - 1 };
            assert(t[b] == s[a]);
        }
    }
    assert(as_map(t) =~= as_map(s).insert(k, t[i].value));
}

proof fn lemma_replaced<V>(s: Seq<TextEntry<V>>, t: Seq<TextEntry<V>>, i: int)
    requires
        in_key_order(s),
        in_key_order(t),
        0 <= i < s.len(),
        t == s.update(i, t[i]),
        t[i].key@ == s[i].key@,
    ensures
        as_map(t) == as_map(s).insert(t[i].key@, t[i].value),
{
    let k = t[i].key@;
    lemma_entry_found(t, i);
    assert forall|key: Seq<char>| key != k implies is_key(s, key) == is_key(t, key) && (is_key(
        s,
        key,
    ) ==> as_map(t)[key] == as_map(s)[key]) by {
        if is_key(s, key) {
            let a = index_of_key(s, key);
            assert(t[a] == s[a]);
            lemma_entry_found(t, a);
            lemma_entry_found(s, a);
        }
        if is_key(t, key) {
            let b = index_of_key(t, key);
            assert(t[b] == s[b]);
        }
    }
    assert(as_map(t) =~= as_map(s).insert(k, t[i].value));
}

} // verus!
