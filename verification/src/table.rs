//! A small association table: a vector of key/value entries read as a finite map.
//!
//! The first entry with a given key is the one that counts; `insert` replaces
//! that entry in place or appends a new one.

use vstd::prelude::*;

verus! {

/// Keys that can be compared for equality of their views.
pub trait TableKey: View + Sized {
    fn same_key(&self, other: &Self) -> (r: bool)
        ensures
            r == (self@ == other@),
    ;
}

impl TableKey for String {
    fn same_key(&self, other: &Self) -> (r: bool) {
        self.eq(other)
    }
}

/// The map that a sequence of entries stands for: earlier entries win.
pub open spec fn entries_view<K: View, V>(s: Seq<(K, V)>) -> Map<K::V, V>
    decreases s.len(),
{
    if s.len() == 0 {
        Map::empty()
    } else {
        entries_view(s.drop_first()).insert(s[0].0@, s[0].1)
    }
}

/// Skipping entries whose key differs from `k` does not change what `k` maps to.
pub proof fn lemma_entries_skip<K: View, V>(s: Seq<(K, V)>, i: int, k: K::V)
    requires
        0 <= i <= s.len(),
        forall|j: int| 0 <= j < i ==> (#[trigger] s[j]).0@ != k,
    ensures
        entries_view(s).contains_key(k) == entries_view(s.skip(i)).contains_key(k),
        entries_view(s).contains_key(k) ==> entries_view(s)[k] == entries_view(s.skip(i))[k],
    decreases i,
{
    if i == 0 {
        assert(s.skip(0) =~= s);
    } else {
        let t = s.drop_first();
        assert(s[0].0@ != k);
        assert forall|j: int| 0 <= j < i - 1 implies (#[trigger] t[j]).0@ != k by {
            assert(t[j] == s[j + 1]);
        }
        lemma_entries_skip(t, i - 1, k);
        assert(t.skip(i - 1) =~= s.skip(i));
    }
}

/// The entries from position `i` on are the entry at `i` in front of those after it.
pub proof fn lemma_entries_at<K: View, V>(s: Seq<(K, V)>, i: int)
    requires
        0 <= i < s.len(),
    ensures
        entries_view(s.skip(i)) == entries_view(s.skip(i + 1)).insert(s[i].0@, s[i].1),
{
    let t = s.skip(i);
    assert(t.len() > 0);
    assert(t.drop_first() =~= s.skip(i + 1));
    assert(t[0] == s[i]);
}

/// Replacing the first entry with key `x.0` sets that key to `x.1`.
pub proof fn lemma_entries_update<K: View, V>(s: Seq<(K, V)>, i: int, x: (K, V))
    requires
        0 <= i < s.len(),
        forall|j: int| 0 <= j < i ==> (#[trigger] s[j]).0@ != x.0@,
        s[i].0@ == x.0@,
    ensures
        entries_view(s.update(i, x)) == entries_view(s).insert(x.0@, x.1),
    decreases i,
{
    let u = s.update(i, x);
    if i == 0 {
        assert(u.drop_first() =~= s.drop_first());
        assert(entries_view(u) =~= entries_view(s).insert(x.0@, x.1));
    } else {
        let t = s.drop_first();
        assert forall|j: int| 0 <= j < i - 1 implies (#[trigger] t[j]).0@ != x.0@ by {
            assert(t[j] == s[j + 1]);
        }
        lemma_entries_update(t, i - 1, x);
        assert(u.drop_first() =~= t.update(i - 1, x));
        assert(s[0].0@ != x.0@);
        assert(entries_view(u) =~= entries_view(s).insert(x.0@, x.1));
    }
}

/// Appending an entry whose key is new adds that key.
pub proof fn lemma_entries_push<K: View, V>(s: Seq<(K, V)>, x: (K, V))
    requires
        forall|j: int| 0 <= j < s.len() ==> (#[trigger] s[j]).0@ != x.0@,
    ensures
        entries_view(s.push(x)) == entries_view(s).insert(x.0@, x.1),
    decreases s.len(),
{
    let p = s.push(x);
    if s.len() == 0 {
        assert(p.drop_first() =~= s);
        assert(entries_view(p) =~= entries_view(s).insert(x.0@, x.1));
    } else {
        let t = s.drop_first();
        assert forall|j: int| 0 <= j < t.len() implies (#[trigger] t[j]).0@ != x.0@ by {
            assert(t[j] == s[j + 1]);
        }
        lemma_entries_push(t, x);
        assert(p.drop_first() =~= t.push(x));
        assert(s[0].0@ != x.0@);
        assert(entries_view(p) =~= entries_view(s).insert(x.0@, x.1));
    }
}

/// Position of the first entry whose key has the view of `key`, if any.
pub fn find_entry<K: TableKey, V>(entries: &Vec<(K, V)>, key: &K) -> (r: Option<usize>)
    ensures
        match r {
            Some(i) => {
                &&& i < entries@.len()
                &&& entries@[i as int].0@ == key@
                &&& forall|j: int| 0 <= j < i ==> (#[trigger] entries@[j]).0@ != key@
            },
            None => forall|j: int| 0 <= j < entries@.len() ==> (#[trigger] entries@[j]).0@ != key@,
        },
{
    let n = entries.len();
    let mut i: usize = 0;
    while i < n
        invariant
            n == entries@.len(),
            i <= n,
            forall|j: int| 0 <= j < i ==> (#[trigger] entries@[j]).0@ != key@,
        decreases n - i,
    {
        if entries[i].0.same_key(key) {
            return Some(i);
        }
        i = i + 1;
    }
    None
}

/// Looks `key` up among `entries`, giving the value of the first entry with that key.
pub fn lookup_entry<'t, K: TableKey, V>(entries: &'t Vec<(K, V)>, key: &K) -> (r: Option<&'t V>)
    ensures
        match r {
            Some(v) => entries_view(entries@).contains_key(key@) && *v == entries_view(
                entries@,
            )[key@],
            None => !entries_view(entries@).contains_key(key@),
        },
{
    match find_entry(entries, key) {
        Some(i) => {
            proof {
                lemma_entries_skip(entries@, i as int, key@);
                lemma_entries_at(entries@, i as int);
            }
            Some(&entries[i].1)
        },
        None => {
            proof {
                lemma_entries_skip(entries@, entries@.len() as int, key@);
                assert(entries@.skip(entries@.len() as int) =~= Seq::<(K, V)>::empty());
            }
            None
        },
    }
}

/// Sets `key` to `value` among `entries`: the first entry with that key is replaced,
/// or the pair is appended.
pub fn store_entry<K: TableKey, V>(entries: &mut Vec<(K, V)>, key: K, value: V)
    ensures
        entries_view(final(entries)@) == entries_view(old(entries)@).insert(key@, value),
{
    match find_entry(entries, &key) {
        Some(i) => {
            proof {
                lemma_entries_update(entries@, i as int, (key, value));
            }
            entries.set(i, (key, value));
        },
        None => {
            proof {
                lemma_entries_push(entries@, (key, value));
            }
            entries.push((key, value));
        },
    }
}

/// A finite map kept as a vector of entries.
#[derive(Debug, PartialEq)]
pub struct Table<K, V> {
    entries: Vec<(K, V)>,
}

impl<K: View, V> View for Table<K, V> {
    type V = Map<K::V, V>;

    closed spec fn view(&self) -> Map<K::V, V> {
        entries_view(self.entries@)
    }
}

impl<K: TableKey, V> Table<K, V> {
    /// An empty table.
    pub fn new() -> (r: Self)
        ensures
            r@ == Map::<K::V, V>::empty(),
    {
        Table { entries: Vec::new() }
    }

    /// The value stored under `key`, if any.
    pub fn get(&self, key: &K) -> (r: Option<&V>)
        ensures
            match r {
                Some(v) => self@.contains_key(key@) && *v == self@[key@],
                None => !self@.contains_key(key@),
            },
    {
        lookup_entry(&self.entries, key)
    }

    /// Adds `key` with `value`, replacing what `key` held before.
    pub fn insert(&mut self, key: K, value: V)
        ensures
            final(self)@ == old(self)@.insert(key@, value),
    {
        store_entry(&mut self.entries, key, value);
    }
}

} // verus!
