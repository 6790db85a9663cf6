//! A map from text keys to values that keeps its entries in the order in
//! which their keys were first inserted.

use crate::text::{is_word, to_chars};
use vstd::prelude::*;

verus! {

/// The index of the first entry with the key `key`; the number of entries
/// where there is none.
pub open spec fn position<W>(entries: Seq<(Seq<char>, W)>, key: Seq<char>) -> int
    decreases entries.len(),
{
    if entries.len() == 0 || entries[0].0 == key {
        0
    } else {
        1 + position(entries.drop_first(), key)
    }
}

/// The value of the first entry with the key `key`.
pub open spec fn lookup<W>(entries: Seq<(Seq<char>, W)>, key: Seq<char>) -> Option<W> {
    if position(entries, key) < entries.len() {
        Some(entries[position(entries, key)].1)
    } else {
        None
    }
}

/// The entries after `key` is set to `value`: the entry with that key has
/// the new value and keeps its place; a new key comes last.
pub open spec fn inserted<W>(entries: Seq<(Seq<char>, W)>, key: Seq<char>, value: W) -> Seq<
    (Seq<char>, W),
> {
    if position(entries, key) < entries.len() {
        entries.update(position(entries, key), (key, value))
    } else {
        entries.push((key, value))
    }
}

/// No key occurs twice.
pub open spec fn distinct_keys<W>(entries: Seq<(Seq<char>, W)>) -> bool {
    forall|i: int, j: int|
        0 <= i < entries.len() && 0 <= j < entries.len() && i != j ==> (#[trigger] entries[i]).0
            != (#[trigger] entries[j]).0
}

/// `position` is the one index that holds `key` with no `key` before it.
pub proof fn lemma_position<W>(entries: Seq<(Seq<char>, W)>, key: Seq<char>, k: int)
    requires
        0 <= k <= entries.len(),
        forall|j: int| 0 <= j < k ==> (#[trigger] entries[j]).0 != key,
        k < entries.len() ==> entries[k].0 == key,
    ensures
        position(entries, key) == k,
    decreases entries.len(),
{
    if entries.len() == 0 || entries[0].0 == key {
        if k > 0 {
            assert(entries[0].0 != key);
        }
    } else {
        let t = entries.drop_first();
        assert forall|j: int| 0 <= j < k - 1 implies (#[trigger] t[j]).0 != key by {
            assert(t[j] == entries[j + 1]);
        }
        lemma_position(t, key, k - 1);
    }
}

/// What `position` finds: it is in range, holds the key where it is an
/// index, and no earlier entry holds the key.
pub proof fn lemma_position_found<W>(entries: Seq<(Seq<char>, W)>, key: Seq<char>)
    ensures
        0 <= position(entries, key) <= entries.len(),
        position(entries, key) < entries.len() ==> entries[position(entries, key)].0 == key,
        forall|j: int| 0 <= j < position(entries, key) ==> (#[trigger] entries[j]).0 != key,
    decreases entries.len(),
{
    if entries.len() == 0 || entries[0].0 == key {
    } else {
        let t = entries.drop_first();
        lemma_position_found(t, key);
        assert forall|j: int| 0 <= j < position(entries, key) implies (#[trigger] entries[j]).0
            != key by {
            if j > 0 {
                assert(entries[j] == t[j - 1]);
            }
        }
    }
}

/// Inserting keeps the keys distinct, and the inserted key then maps to the
/// inserted value while every other key maps to what it did.
pub proof fn lemma_inserted<W>(
    entries: Seq<(Seq<char>, W)>,
    key: Seq<char>,
    value: W,
    other: Seq<char>,
)
    ensures
        distinct_keys(entries) ==> distinct_keys(inserted(entries, key, value)),
        lookup(inserted(entries, key, value), key) == Some(value),
        other != key ==> lookup(inserted(entries, key, value), other) == lookup(entries, other),
{
    let after = inserted(entries, key, value);
    let p = position(entries, key);
    lemma_position_found(entries, key);
    lemma_position_found(entries, other);
    assert forall|j: int| 0 <= j < p implies (#[trigger] after[j]).0 != key by {
        assert(after[j] == entries[j]);
    }
    lemma_position(after, key, p);
    if other != key {
        let q = position(entries, other);
        assert forall|j: int| 0 <= j < q implies (#[trigger] after[j]).0 != other by {
            if j < entries.len() && j != p {
                assert(after[j] == entries[j]);
            }
        }
        if q < entries.len() {
            assert(after[q] == entries[q]);
            lemma_position(after, other, q);
        } else {
            lemma_position(after, other, after.len() as int);
        }
    }
    if distinct_keys(entries) {
        assert forall|i: int, j: int|
            0 <= i < after.len() && 0 <= j < after.len() && i != j implies (#[trigger] after[i]).0
            != (#[trigger] after[j]).0 by {
            if p < entries.len() {
                assert(after[i].0 == entries[i].0);
                assert(after[j].0 == entries[j].0);
            } else {
                if i < entries.len() {
                    assert(after[i] == entries[i]);
                }
                if j < entries.len() {
                    assert(after[j] == entries[j]);
                }
            }
        }
    }
}

/// A map from text keys to values, in insertion order.
#[derive(Debug, PartialEq, Eq)]
pub struct TextMap<V> {
    pub entries: Vec<(String, V)>,
}

impl<V: View> View for TextMap<V> {
    type V = Seq<(Seq<char>, V::V)>;

    open spec fn view(&self) -> Seq<(Seq<char>, V::V)> {
        Seq::new(self.entries@.len(), |i: int| (self.entries@[i].0@, self.entries@[i].1@))
    }
}

impl<V: View> TextMap<V> {
    /// No key occurs twice.
    pub open spec fn wf(&self) -> bool {
        distinct_keys(self@)
    }

    /// The map without entries.
    pub fn new() -> (out: Self)
        ensures
            out@ == Seq::<(Seq<char>, V::V)>::empty(),
            out.wf(),
    {
        let out = TextMap { entries: Vec::new() };
        assert(out@ =~= Seq::<(Seq<char>, V::V)>::empty());
        out
    }

    /// The number of entries.
    pub fn len(&self) -> (n: usize)
        ensures
            n == self@.len(),
    {
        self.entries.len()
    }

    /// The key of the entry at `index`.
    pub fn key_at(&self, index: usize) -> (key: &String)
        requires
            index < self@.len(),
        ensures
            key@ == self@[index as int].0,
    {
        &self.entries[index].0
    }

    /// The value of the entry at `index`.
    pub fn value_at(&self, index: usize) -> (value: &V)
        requires
            index < self@.len(),
        ensures
            value@ == self@[index as int].1,
    {
        &self.entries[index].1
    }

    /// The index of the first entry with the key `key`; the number of
    /// entries where there is none.
    pub fn find(&self, key: &Vec<char>) -> (index: usize)
        ensures
            index == position(self@, key@),
            index <= self@.len(),
    {
        let mut i: usize = 0;
        while i < self.entries.len()
            invariant
                i <= self.entries.len(),
                forall|j: int| 0 <= j < i ==> (#[trigger] self@[j]).0 != key@,
            decreases self.entries.len() - i,
        {
            if is_word(key, self.entries[i].0.as_str()) {
                proof {
                    lemma_position(self@, key@, i as int);
                }
                return i;
            }
            i += 1;
        }
        proof {
            lemma_position(self@, key@, i as int);
        }
        i
    }

    /// The value that `key` maps to.
    pub fn get(&self, key: &str) -> (out: Option<&V>)
        ensures
            match out {
                Some(value) => lookup(self@, key@) == Some(value@),
                None => lookup(self@, key@) is None,
            },
    {
        let chars = to_chars(key);
        let i = self.find(&chars);
        if i < self.entries.len() {
            Some(&self.entries[i].1)
        } else {
            None
        }
    }

    /// Maps `key` to `value`. An entry that had the key keeps its place and
    /// gets the new value; a new key is entered last.
    pub fn insert(&mut self, key: String, value: V)
        ensures
            final(self)@ == inserted(old(self)@, key@, value@),
            old(self).wf() ==> final(self).wf(),
    {
        let chars = to_chars(key.as_str());
        let i = self.find(&chars);
        proof {
            lemma_inserted(old(self)@, key@, value@, key@);
        }
        if i < self.entries.len() {
            self.entries.set(i, (key, value));
        } else {
            self.entries.push((key, value));
        }
        assert(self@ =~= inserted(old(self)@, key@, value@));
    }
}

} // verus!
