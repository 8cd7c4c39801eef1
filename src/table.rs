//! A small map from `u64` keys to values, kept as a vector of entries with
//! unique keys in the order in which the keys first appeared.
use vstd::prelude::*;

verus! {

/// No key occurs in two entries.
pub open spec fn keys_unique<T>(s: Seq<(u64, T)>) -> bool {
    forall|i: int, j: int|
        0 <= i < s.len() && 0 <= j < s.len() && i != j ==> #[trigger] s[i].0 != #[trigger] s[j].0
}

/// The key occurs in some entry.
pub open spec fn has_key<T>(s: Seq<(u64, T)>, k: u64) -> bool {
    exists|i: int| 0 <= i < s.len() && #[trigger] s[i].0 == k
}

/// The map that a sequence of entries with unique keys stands for.
pub open spec fn entries_map<T>(s: Seq<(u64, T)>) -> Map<u64, T> {
    Map::new(
        |k: u64| has_key(s, k),
        |k: u64| s[choose|i: int| 0 <= i < s.len() && #[trigger] s[i].0 == k].1,
    )
}

/// Where keys are unique, the entry at `i` gives the value of its key.
pub proof fn lemma_entry_value<T>(s: Seq<(u64, T)>, i: int)
    requires
        keys_unique(s),
        0 <= i < s.len(),
    ensures
        entries_map(s).contains_key(s[i].0),
        entries_map(s)[s[i].0] == s[i].1,
{
    let k = s[i].0;
    assert(has_key(s, k));
    let j = choose|j: int| 0 <= j < s.len() && #[trigger] s[j].0 == k;
    assert(s[j].0 == s[i].0);
}

/// Overwriting the entry at `i` overwrites the value of its key.
pub proof fn lemma_update_entry<T>(s: Seq<(u64, T)>, i: int, v: T)
    requires
        keys_unique(s),
        0 <= i < s.len(),
    ensures
        keys_unique(s.update(i, (s[i].0, v))),
        entries_map(s.update(i, (s[i].0, v))) == entries_map(s).insert(s[i].0, v),
{
    let k = s[i].0;
    let t = s.update(i, (k, v));
    assert(keys_unique(t)) by {
        assert forall|a: int, b: int|
            0 <= a < t.len() && 0 <= b < t.len() && a != b implies #[trigger] t[a].0
            != #[trigger] t[b].0 by {
            assert(t[a].0 == s[a].0);
            assert(t[b].0 == s[b].0);
        }
    }
    assert forall|key: u64| #[trigger] has_key(t, key) == has_key(s, key) by {
        if has_key(s, key) {
            let a = choose|a: int| 0 <= a < s.len() && #[trigger] s[a].0 == key;
            assert(t[a].0 == key);
        }
        if has_key(t, key) {
            let a = choose|a: int| 0 <= a < t.len() && #[trigger] t[a].0 == key;
            assert(s[a].0 == key);
        }
    }
    assert forall|key: u64| #[trigger] entries_map(t).contains_key(key) implies entries_map(t)[key]
        == entries_map(s).insert(k, v)[key] by {
        let a = choose|a: int| 0 <= a < t.len() && #[trigger] t[a].0 == key;
        lemma_entry_value(t, a);
        if a != i {
            assert(t[a] == s[a]);
            lemma_entry_value(s, a);
        }
    }
    assert(entries_map(t) =~= entries_map(s).insert(k, v));
}

/// Appending an entry with a new key adds that key.
pub proof fn lemma_push_entry<T>(s: Seq<(u64, T)>, k: u64, v: T)
    requires
        keys_unique(s),
        !has_key(s, k),
    ensures
        keys_unique(s.push((k, v))),
        entries_map(s.push((k, v))) == entries_map(s).insert(k, v),
{
    let t = s.push((k, v));
    assert forall|a: int| 0 <= a < s.len() implies #[trigger] t[a] == s[a] by {}
    assert(keys_unique(t)) by {
        assert forall|a: int, b: int|
            0 <= a < t.len() && 0 <= b < t.len() && a != b implies #[trigger] t[a].0
            != #[trigger] t[b].0 by {
            if a < s.len() && b < s.len() {
                assert(s[a].0 != s[b].0);
            } else if a < s.len() {
                assert(s[a].0 != k);
            } else {
                assert(s[b].0 != k);
            }
        }
    }
    assert forall|key: u64| #[trigger] has_key(t, key) == (has_key(s, key) || key == k) by {
        if has_key(s, key) {
            let a = choose|a: int| 0 <= a < s.len() && #[trigger] s[a].0 == key;
            assert(t[a].0 == key);
        }
        if key == k {
            assert(t[s.len() as int].0 == key);
        }
        if has_key(t, key) && key != k {
            let a = choose|a: int| 0 <= a < t.len() && #[trigger] t[a].0 == key;
            assert(s[a].0 == key);
        }
    }
    assert forall|key: u64| #[trigger] entries_map(t).contains_key(key) implies entries_map(t)[key]
        == entries_map(s).insert(k, v)[key] by {
        let a = choose|a: int| 0 <= a < t.len() && #[trigger] t[a].0 == key;
        lemma_entry_value(t, a);
        if a < s.len() {
            lemma_entry_value(s, a);
        }
    }
    assert(entries_map(t) =~= entries_map(s).insert(k, v));
}

/// A map from `u64` keys to values of type `T`.
pub struct KeyedTable<T> {
    entries: Vec<(u64, T)>,
}

impl<T> View for KeyedTable<T> {
    type V = Map<u64, T>;

    closed spec fn view(&self) -> Map<u64, T> {
        entries_map(self.entries@)
    }
}

impl<T: Copy> KeyedTable<T> {
    /// The entries, each key once, in the order in which the keys first appeared.
    pub closed spec fn entries(&self) -> Seq<(u64, T)> {
        self.entries@
    }

    /// The entries have unique keys.
    pub closed spec fn wf(&self) -> bool {
        keys_unique(self.entries@)
    }

    /// The table's map is the one that its entries stand for.
    pub proof fn lemma_view(&self)
        ensures
            self@ == entries_map(self.entries()),
            self.wf() == keys_unique(self.entries()),
    {
    }

    /// An empty table.
    pub fn new() -> (r: Self)
        ensures
            r.wf(),
            r@ == Map::<u64, T>::empty(),
            r.entries() == Seq::<(u64, T)>::empty(),
    {
        let r = KeyedTable { entries: Vec::new() };
        assert(r@ =~= Map::<u64, T>::empty());
        r
    }

    /// Position of the entry for `k`, if there is one.
    fn find(&self, k: u64) -> (r: Option<usize>)
        ensures
            match r {
                Some(i) => i < self.entries@.len() && self.entries@[i as int].0 == k,
                None => !has_key(self.entries@, k),
            },
    {
        let mut i: usize = 0;
        while i < self.entries.len()
            invariant
                i <= self.entries@.len(),
                forall|j: int| 0 <= j < i ==> #[trigger] self.entries@[j].0 != k,
            decreases self.entries@.len() - i,
        {
            if self.entries[i].0 == k {
                return Some(i);
            }
            i = i + 1;
        }
        None
    }

    /// The value stored under `k`.
    pub fn get(&self, k: u64) -> (r: Option<T>)
        requires
            self.wf(),
        ensures
            r == (if self@.contains_key(k) {
                Some(self@[k])
            } else {
                None::<T>
            }),
    {
        match self.find(k) {
            Some(i) => {
                proof {
                    lemma_entry_value(self.entries@, i as int);
                }
                Some(self.entries[i].1)
            },
            None => None,
        }
    }

    /// Stores `v` under `k`, in place of any earlier value.
    pub fn set(&mut self, k: u64, v: T)
        requires
            old(self).wf(),
        ensures
            final(self).wf(),
            final(self)@ == old(self)@.insert(k, v),
            old(self)@.contains_key(k) ==> exists|i: int|
                0 <= i < old(self).entries().len() && #[trigger] old(self).entries()[i].0 == k
                    && final(self).entries() == old(self).entries().update(i, (k, v)),
            !old(self)@.contains_key(k) ==> final(self).entries() == old(self).entries().push(
                (k, v),
            ),
    {
        match self.find(k) {
            Some(i) => {
                proof {
                    lemma_update_entry(self.entries@, i as int, v);
                }
                let ghost before = self.entries@;
                self.entries.set(i, (k, v));
                assert(old(self).entries()[i as int].0 == k && self.entries() == old(
                    self,
                ).entries().update(i as int, (k, v)));
            },
            None => {
                proof {
                    lemma_push_entry(self.entries@, k, v);
                }
                self.entries.push((k, v));
            },
        }
    }
}

} // verus!
