//! The picker's memory of colors: for a display color, the perceptual color
//! that was last shown as it.
//!
//! Many perceptual colors round to one display color, and a gray keeps no
//! trace of the hue it was made from. The cache keeps the perceptual color,
//! hue included, so that the next edit of that display color starts where the
//! last one ended. It holds a bounded number of entries and, when full, drops
//! the one that was set longest ago.

use vstd::prelude::*;
use crate::color::{DisplayColor, PerceptualColor};

verus! {

/// One remembered color: the display color and what it stands for.
#[derive(Clone, Copy, Debug, PartialEq, Eq, Structural)]
pub struct Entry {
    pub key: DisplayColor,
    pub value: PerceptualColor,
}

/// Whether some entry is stored under `key`.
pub open spec fn holds(entries: Seq<Entry>, key: DisplayColor) -> bool {
    exists|i: int| 0 <= i < entries.len() && (#[trigger] entries[i]).key == key
}

/// Where the entry of `key` stands, if there is one.
pub open spec fn position(entries: Seq<Entry>, key: DisplayColor) -> int {
    choose|i: int| 0 <= i < entries.len() && (#[trigger] entries[i]).key == key
}

/// What is stored under `key`.
pub open spec fn lookup(entries: Seq<Entry>, key: DisplayColor) -> Option<PerceptualColor> {
    if holds(entries, key) {
        Some(entries[position(entries, key)].value)
    } else {
        None
    }
}

/// Whether no two entries share a key.
pub open spec fn distinct_keys(entries: Seq<Entry>) -> bool {
    forall|i: int, j: int|
        0 <= i < j < entries.len() ==> (#[trigger] entries[i]).key != (#[trigger] entries[j]).key
}

/// Whether `entries` can be the content of a cache of the given capacity.
pub open spec fn is_valid(entries: Seq<Entry>, capacity: nat) -> bool {
    &&& 1 <= capacity
    &&& entries.len() <= capacity
    &&& distinct_keys(entries)
}

/// Whether setting `key` has to drop the oldest entry: the key is new and
/// there is no room left.
pub open spec fn evicts(entries: Seq<Entry>, capacity: nat, key: DisplayColor) -> bool {
    !holds(entries, key) && entries.len() >= capacity
}

/// The content after `value` is set for `key`. Entries stand in the order in
/// which they were last set, the oldest first. An entry of the same key is
/// replaced; otherwise, in a full cache, the oldest entry gives way.
pub open spec fn after_set(
    entries: Seq<Entry>,
    capacity: nat,
    key: DisplayColor,
    value: PerceptualColor,
) -> Seq<Entry> {
    let entry = Entry { key, value };
    if holds(entries, key) {
        entries.remove(position(entries, key)).push(entry)
    } else if entries.len() < capacity {
        entries.push(entry)
    } else {
        entries.drop_first().push(entry)
    }
}

/// Setting a value keeps the content within its capacity and its keys
/// distinct.
pub proof fn lemma_set_keeps_validity(
    entries: Seq<Entry>,
    capacity: nat,
    key: DisplayColor,
    value: PerceptualColor,
)
    requires
        is_valid(entries, capacity),
    ensures
        is_valid(after_set(entries, capacity, key, value), capacity),
        after_set(entries, capacity, key, value).last() == (Entry { key, value }),
{
    let next = after_set(entries, capacity, key, value);
    if holds(entries, key) {
        let p = position(entries, key);
        let kept = entries.remove(p);
        assert forall|i: int| 0 <= i < kept.len() implies (#[trigger] kept[i]).key != key by {
            if i < p {
                assert(kept[i] == entries[i]);
            } else {
                assert(kept[i] == entries[i + 1]);
            }
        }
        assert forall|i: int, j: int| 0 <= i < j < next.len() implies (#[trigger] next[i]).key != (
        #[trigger] next[j]).key by {
            if j < kept.len() {
                let from_i = if i < p { i } else { i + 1 };
                let from_j = if j < p { j } else { j + 1 };
                assert(kept[i] == entries[from_i]);
                assert(kept[j] == entries[from_j]);
            } else {
                assert(next[i] == kept[i]);
            }
        }
    } else if entries.len() < capacity {
        assert forall|i: int, j: int| 0 <= i < j < next.len() implies (#[trigger] next[i]).key != (
        #[trigger] next[j]).key by {
            assert(next[i] == entries[i]);
            if j < entries.len() {
                assert(next[j] == entries[j]);
            }
        }
    } else {
        let kept = entries.drop_first();
        assert forall|i: int, j: int| 0 <= i < j < next.len() implies (#[trigger] next[i]).key != (
        #[trigger] next[j]).key by {
            assert(next[i] == entries[i + 1]);
            if j < kept.len() {
                assert(next[j] == entries[j + 1]);
            }
        }
    }
}

/// What was set last under a key is what a lookup of that key finds, whatever
/// else the cache held: the full color, hue included, even where its display
/// color shows none.
pub proof fn lemma_set_then_lookup(
    entries: Seq<Entry>,
    capacity: nat,
    key: DisplayColor,
    value: PerceptualColor,
)
    requires
        is_valid(entries, capacity),
    ensures
        lookup(after_set(entries, capacity, key, value), key) == Some(value),
{
    let next = after_set(entries, capacity, key, value);
    lemma_set_keeps_validity(entries, capacity, key, value);
    let last = next.len() - 1;
    assert(next[last] == (Entry { key, value }));
    assert(holds(next, key));
    let p = position(next, key);
    assert(p == last) by {
        if p < last {
            assert(next[p].key != next[last].key);
        }
    }
}

/// Setting one key leaves every other key as it was, with one exception: a
/// new key set in a full cache removes the oldest entry, and nothing else.
pub proof fn lemma_set_spares_others(
    entries: Seq<Entry>,
    capacity: nat,
    key: DisplayColor,
    value: PerceptualColor,
    other: DisplayColor,
)
    requires
        is_valid(entries, capacity),
        other != key,
    ensures
        lookup(after_set(entries, capacity, key, value), other) == (if evicts(
            entries,
            capacity,
            key,
        ) && entries[0].key == other {
            None
        } else {
            lookup(entries, other)
        }),
{
    let next = after_set(entries, capacity, key, value);
    lemma_set_keeps_validity(entries, capacity, key, value);
    // Where each entry of `next` but the last came from.
    let shift = |i: int|
        if holds(entries, key) {
            if i < position(entries, key) {
                i
            } else {
                i + 1
            }
        } else if entries.len() < capacity {
            i
        } else {
            i + 1
        };
    assert forall|i: int| 0 <= i < next.len() - 1 implies #[trigger] next[i] == entries[shift(i)]
        && 0 <= shift(i) < entries.len() by {}
    if holds(next, other) {
        let q = position(next, other);
        assert(q < next.len() - 1);
        let from = shift(q);
        assert(entries[from].key == other);
        assert(holds(entries, other));
        let p = position(entries, other);
        assert(p == from) by {
            if p < from {
                assert(entries[p].key != entries[from].key);
            } else if from < p {
                assert(entries[from].key != entries[p].key);
            }
        }
        if evicts(entries, capacity, key) && entries[0].key == other {
            assert(entries[0].key != entries[from].key);
        }
    } else if holds(entries, other) {
        let p = position(entries, other);
        if evicts(entries, capacity, key) {
            if p > 0 {
                assert(next[p - 1] == entries[p]);
                assert(next[p - 1].key == other);
            }
        } else if holds(entries, key) {
            let at = position(entries, key);
            if p < at {
                assert(next[p] == entries[p]);
                assert(next[p].key == other);
            } else {
                assert(next[p - 1] == entries[p]);
                assert(next[p - 1].key == other);
            }
        } else {
            assert(next[p] == entries[p]);
            assert(next[p].key == other);
        }
    }
}

/// A bounded memory from display colors to perceptual colors.
#[derive(Debug)]
pub struct RoundTripCache {
    capacity: usize,
    entries: Vec<Entry>,
}

impl RoundTripCache {
    #[verifier::type_invariant]
    spec fn well_formed(self) -> bool {
        is_valid(self.entries@, self.capacity as nat)
    }

    /// The entries in the order in which they were last set, the oldest
    /// first.
    pub closed spec fn view(&self) -> Seq<Entry> {
        self.entries@
    }

    /// The number of entries the cache holds at most.
    pub closed spec fn limit(&self) -> nat {
        self.capacity as nat
    }

    /// An empty cache that will hold up to `capacity` entries.
    pub fn new(capacity: usize) -> (cache: Self)
        requires
            capacity >= 1,
        ensures
            cache@ == Seq::<Entry>::empty(),
            cache.limit() == capacity,
            is_valid(cache@, cache.limit()),
    {
        RoundTripCache { capacity, entries: Vec::new() }
    }

    pub fn capacity(&self) -> (capacity: usize)
        ensures
            capacity == self.limit(),
            capacity >= 1,
    {
        proof {
            use_type_invariant(self);
        }
        self.capacity
    }

    /// The number of entries held.
    pub fn len(&self) -> (len: usize)
        ensures
            len == self@.len(),
            len <= self.limit(),
    {
        proof {
            use_type_invariant(self);
        }
        self.entries.len()
    }

    /// Where `key` stands among the entries, or their number if it is not
    /// there.
    fn find(&self, key: DisplayColor) -> (at: usize)
        ensures
            is_valid(self@, self.limit()),
            at <= self@.len(),
            at < self@.len() <==> holds(self@, key),
            at < self@.len() ==> at == position(self@, key),
    {
        proof {
            use_type_invariant(self);
        }
        let mut i: usize = 0;
        while i < self.entries.len()
            invariant
                is_valid(self.entries@, self.capacity as nat),
                i <= self.entries@.len(),
                forall|j: int| 0 <= j < i ==> (#[trigger] self.entries@[j]).key != key,
            decreases self.entries@.len() - i,
        {
            if self.entries[i].key == key {
                proof {
                    let p = position(self@, key);
                    if p < i {
                        assert(self.entries@[p].key != key);
                    } else if i < p {
                        assert(self.entries@[i as int].key != self.entries@[p].key);
                    }
                }
                return i;
            }
            i += 1;
        }
        i
    }

    /// The perceptual color last set for `key`, if the cache still holds one.
    pub fn get(&self, key: DisplayColor) -> (found: Option<PerceptualColor>)
        ensures
            found == lookup(self@, key),
            is_valid(self@, self.limit()),
    {
        let at = self.find(key);
        if at < self.entries.len() {
            Some(self.entries[at].value)
        } else {
            None
        }
    }

    /// Remembers `value` for `key` as the most recent entry. An earlier value
    /// of the same key is replaced. A new key in a full cache takes the place
    /// of the entry that was set longest ago.
    pub fn set(&mut self, key: DisplayColor, value: PerceptualColor)
        ensures
            final(self)@ == after_set(old(self)@, old(self).limit(), key, value),
            final(self).limit() == old(self).limit(),
            is_valid(old(self)@, old(self).limit()),
            is_valid(final(self)@, final(self).limit()),
    {
        proof {
            use_type_invariant(&*self);
            lemma_set_keeps_validity(self@, self.limit(), key, value);
        }
        let at = self.find(key);
        let mut entries: Vec<Entry> = Vec::new();
        std::mem::swap(&mut entries, &mut self.entries);
        if at < entries.len() {
            entries.remove(at);
        } else if entries.len() >= self.capacity {
            entries.remove(0);
        }
        entries.push(Entry { key, value });
        self.entries = entries;
    }
}

impl Clone for RoundTripCache {
    /// A cache of the same capacity with the same entries in the same order.
    fn clone(&self) -> (copy: Self)
        ensures
            copy@ == self@,
            copy.limit() == self.limit(),
    {
        proof {
            use_type_invariant(self);
        }
        let mut entries: Vec<Entry> = Vec::new();
        let mut i: usize = 0;
        while i < self.entries.len()
            invariant
                i <= self.entries@.len(),
                entries@ == self.entries@.take(i as int),
            decreases self.entries@.len() - i,
        {
            entries.push(self.entries[i]);
            assert(entries@ == self.entries@.take(i + 1));
            i += 1;
        }
        assert(entries@ == self.entries@);
        RoundTripCache { capacity: self.capacity, entries }
    }
}

} // verus!
