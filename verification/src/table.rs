//! A string-keyed table: the store the service keeps each of its mappings in.
//!
//! Entries are kept in insertion order; a key is looked up at its first
//! entry, and writing a key that is present replaces that entry in place, so
//! a table never holds a key twice when it is only written through `insert`.
use vstd::prelude::*;

verus! {

/// One key and its value.
pub struct Entry<V> {
    pub key: String,
    pub value: V,
}

/// A table from strings to values of `V`, viewed as a `Map` over the
/// keys' character sequences.
pub struct Table<V> {
    entries: Vec<Entry<V>>,
}

/// The map that a sequence of entries stands for: each key maps to the value
/// of its first entry.
pub open spec fn entries_view<V: DeepView>(s: Seq<Entry<V>>) -> Map<Seq<char>, V::V>
    decreases s.len(),
{
    if s.len() == 0 {
        Map::empty()
    } else {
        entries_view(s.drop_first()).insert(s[0].key@, s[0].value.deep_view())
    }
}

/// `i` is the position of the first entry with key `k`.
pub open spec fn first_with_key<V>(s: Seq<Entry<V>>, i: int, k: Seq<char>) -> bool {
    &&& 0 <= i < s.len()
    &&& s[i].key@ == k
    &&& forall|j: int| 0 <= j < i ==> #[trigger] s[j].key@ != k
}

/// No two entries have the same key.
pub open spec fn keys_unique<V>(s: Seq<Entry<V>>) -> bool {
    forall|i: int, j: int| 0 <= i < j < s.len() ==> #[trigger] s[i].key@ != #[trigger] s[j].key@
}

/// No entry has key `k`.
pub open spec fn key_absent<V>(s: Seq<Entry<V>>, k: Seq<char>) -> bool {
    forall|j: int| 0 <= j < s.len() ==> #[trigger] s[j].key@ != k
}

proof fn lemma_view_absent<V: DeepView>(s: Seq<Entry<V>>, k: Seq<char>)
    requires
        key_absent(s, k),
    ensures
        !entries_view(s).contains_key(k),
    decreases s.len(),
{
    if s.len() > 0 {
        assert(s[0].key@ != k);
        assert forall|j: int| 0 <= j < s.drop_first().len() implies #[trigger] s.drop_first()[j].key@ != k by {
            assert(s.drop_first()[j] == s[j + 1]);
        }
        lemma_view_absent(s.drop_first(), k);
    }
}

proof fn lemma_view_first<V: DeepView>(s: Seq<Entry<V>>, i: int, k: Seq<char>)
    requires
        first_with_key(s, i, k),
    ensures
        entries_view(s).contains_key(k),
        entries_view(s)[k] == s[i].value.deep_view(),
    decreases s.len(),
{
    if i > 0 {
        assert(s[0].key@ != k);
        let t = s.drop_first();
        assert(t[i - 1] == s[i]);
        assert forall|j: int| 0 <= j < i - 1 implies #[trigger] t[j].key@ != k by {
            assert(t[j] == s[j + 1]);
        }
        lemma_view_first(t, i - 1, k);
    }
}

proof fn lemma_view_update<V: DeepView>(s: Seq<Entry<V>>, i: int, e: Entry<V>)
    requires
        first_with_key(s, i, e.key@),
    ensures
        entries_view(s.update(i, e)) == entries_view(s).insert(e.key@, e.value.deep_view()),
    decreases s.len(),
{
    let k = e.key@;
    if i == 0 {
        assert(s.update(0, e).drop_first() =~= s.drop_first());
        assert(entries_view(s.update(i, e)) =~= entries_view(s).insert(k, e.value.deep_view()));
    } else {
        let t = s.drop_first();
        assert(s[0].key@ != k);
        assert(t[i - 1] == s[i]);
        assert forall|j: int| 0 <= j < i - 1 implies #[trigger] t[j].key@ != k by {
            assert(t[j] == s[j + 1]);
        }
        lemma_view_update(t, i - 1, e);
        assert(s.update(i, e).drop_first() =~= t.update(i - 1, e));
        assert(s.update(i, e)[0] == s[0]);
        assert(entries_view(s.update(i, e)) =~= entries_view(s).insert(k, e.value.deep_view()));
    }
}

proof fn lemma_view_push<V: DeepView>(s: Seq<Entry<V>>, e: Entry<V>)
    requires
        key_absent(s, e.key@),
    ensures
        entries_view(s.push(e)) == entries_view(s).insert(e.key@, e.value.deep_view()),
    decreases s.len(),
{
    let k = e.key@;
    if s.len() == 0 {
        assert(s.push(e).drop_first() =~= Seq::<Entry<V>>::empty());
        assert(entries_view(s.push(e).drop_first()) == Map::<Seq<char>, V::V>::empty());
        assert(s.push(e)[0] == e);
        assert(entries_view(s.push(e)) =~= entries_view(s).insert(k, e.value.deep_view()));
    } else {
        let t = s.drop_first();
        assert(s[0].key@ != k);
        assert forall|j: int| 0 <= j < t.len() implies #[trigger] t[j].key@ != k by {
            assert(t[j] == s[j + 1]);
        }
        lemma_view_push(t, e);
        assert(s.push(e).drop_first() =~= t.push(e));
        assert(s.push(e)[0] == s[0]);
        assert(entries_view(s.push(e)) == entries_view(t.push(e)).insert(s[0].key@, s[0].value.deep_view()));
        assert(entries_view(s) == entries_view(t).insert(s[0].key@, s[0].value.deep_view()));
        assert(entries_view(s.push(e)) =~= entries_view(s).insert(k, e.value.deep_view()));
    }
}

/// In a sequence with unique keys, each entry is what the map gives for its key.
pub proof fn lemma_entry_in_view<V: DeepView>(s: Seq<Entry<V>>, i: int)
    requires
        keys_unique(s),
        0 <= i < s.len(),
    ensures
        entries_view(s).contains_key(s[i].key@),
        entries_view(s)[s[i].key@] == s[i].value.deep_view(),
{
    assert forall|j: int| 0 <= j < i implies #[trigger] s[j].key@ != s[i].key@ by {
        assert(s[j].key@ != s[i].key@);
    }
    lemma_view_first(s, i, s[i].key@);
}

/// Each key of the map has a first entry, whose value the map gives.
pub proof fn lemma_view_key_has_entry<V: DeepView>(s: Seq<Entry<V>>, k: Seq<char>)
    requires
        entries_view(s).contains_key(k),
    ensures
        exists|i: int| first_with_key(s, i, k) && entries_view(s)[k] == #[trigger] s[i].value.deep_view(),
    decreases s.len(),
{
    if s.len() == 0 {
        assert(!entries_view(s).contains_key(k));
    } else if s[0].key@ == k {
        assert(first_with_key(s, 0, k));
        assert(entries_view(s)[k] == s[0].value.deep_view());
    } else {
        let t = s.drop_first();
        lemma_view_key_has_entry(t, k);
        let i = choose|i: int| first_with_key(t, i, k) && entries_view(t)[k] == #[trigger] t[i].value.deep_view();
        assert(s[i + 1] == t[i]);
        assert forall|j: int| 0 <= j < i + 1 implies #[trigger] s[j].key@ != k by {
            if j > 0 {
                assert(s[j] == t[j - 1]);
            }
        }
        assert(first_with_key(s, i + 1, k));
        assert(entries_view(s)[k] == s[i + 1].value.deep_view());
    }
}

impl<V> Table<V> {
    /// The table holds no key twice.
    pub closed spec fn wf(&self) -> bool {
        keys_unique(self.entries@)
    }
}

impl<V: DeepView> View for Table<V> {
    type V = Map<Seq<char>, V::V>;

    closed spec fn view(&self) -> Map<Seq<char>, V::V> {
        entries_view(self.entries@)
    }
}

impl<V: DeepView> DeepView for Table<V> {
    type V = Map<Seq<char>, V::V>;

    open spec fn deep_view(&self) -> Map<Seq<char>, V::V> {
        self@
    }
}

impl<V: DeepView> Table<V> {
    /// The empty table.
    pub fn new() -> (t: Self)
        ensures
            t@ == Map::<Seq<char>, V::V>::empty(),
            t.wf(),
    {
        Table { entries: Vec::new() }
    }

    /// The position of the first entry with `key`, if any.
    fn find(&self, key: &String) -> (r: Option<usize>)
        ensures
            match r {
                Some(i) => first_with_key(self.entries@, i as int, key@),
                None => key_absent(self.entries@, key@),
            },
    {
        let mut i: usize = 0;
        while i < self.entries.len()
            invariant
                i <= self.entries@.len(),
                forall|j: int| 0 <= j < i ==> #[trigger] self.entries@[j].key@ != key@,
            decreases self.entries@.len() - i,
        {
            if self.entries[i].key == *key {
                return Some(i);
            }
            i = i + 1;
        }
        None
    }

    /// Whether `key` has a value.
    pub fn contains_key(&self, key: &String) -> (b: bool)
        ensures
            b == self@.contains_key(key@),
    {
        match self.find(key) {
            Some(i) => {
                proof {
                    lemma_view_first(self.entries@, i as int, key@);
                }
                true
            },
            None => {
                proof {
                    lemma_view_absent(self.entries@, key@);
                }
                false
            },
        }
    }

    /// The value of `key`, if any.
    pub fn get(&self, key: &String) -> (r: Option<&V>)
        ensures
            match r {
                Some(v) => self@.contains_key(key@) && self@[key@] == v.deep_view(),
                None => !self@.contains_key(key@),
            },
    {
        match self.find(key) {
            Some(i) => {
                proof {
                    lemma_view_first(self.entries@, i as int, key@);
                }
                Some(&self.entries[i].value)
            },
            None => {
                proof {
                    lemma_view_absent(self.entries@, key@);
                }
                None
            },
        }
    }

    /// Sets the value of `key`, replacing the one it had.
    pub fn insert(&mut self, key: String, value: V)
        ensures
            final(self)@ == old(self)@.insert(key@, value.deep_view()),
            old(self).wf() ==> final(self).wf(),
    {
        let e = Entry { key, value };
        match self.find(&e.key) {
            Some(i) => {
                proof {
                    lemma_view_update(self.entries@, i as int, e);
                }
                self.entries.set(i, e);
                assert(old(self).wf() ==> keys_unique(self.entries@));
            },
            None => {
                proof {
                    lemma_view_push(self.entries@, e);
                }
                self.entries.push(e);
                assert(old(self).wf() ==> keys_unique(self.entries@));
            },
        }
    }

    /// The table whose entries are `entries`, in that order.
    pub fn from_entries(entries: Vec<Entry<V>>) -> (t: Self)
        ensures
            t@ == entries_view(entries@),
            t.wf() == keys_unique(entries@),
    {
        Table { entries }
    }

    /// The table's entries, in their order.
    pub fn into_entries(self) -> (r: Vec<Entry<V>>)
        ensures
            entries_view(r@) == self@,
            self.wf() ==> keys_unique(r@),
    {
        self.entries
    }
}

/// Whether no two of `entries` have the same key.
pub fn has_unique_keys<V>(entries: &Vec<Entry<V>>) -> (b: bool)
    ensures
        b == keys_unique(entries@),
{
    let mut j: usize = 0;
    while j < entries.len()
        invariant
            j <= entries@.len(),
            forall|a: int, b: int| 0 <= a < b < j ==> #[trigger] entries@[a].key@ != #[trigger] entries@[b].key@,
        decreases entries@.len() - j,
    {
        let mut i: usize = 0;
        while i < j
            invariant
                i <= j < entries@.len(),
                forall|a: int| 0 <= a < i ==> #[trigger] entries@[a].key@ != entries@[j as int].key@,
            decreases j - i,
        {
            if entries[i].key == entries[j].key {
                return false;
            }
            i = i + 1;
        }
        j = j + 1;
    }
    true
}

impl<V: DeepView + Copy> Table<V> {
    /// A copy of the table, entry for entry.
    pub fn copy(&self) -> (t: Self)
        ensures
            t@ == self@,
    {
        let mut entries: Vec<Entry<V>> = Vec::new();
        let mut i: usize = 0;
        while i < self.entries.len()
            invariant
                i <= self.entries@.len(),
                entries@ == self.entries@.take(i as int),
            decreases self.entries@.len() - i,
        {
            let e = &self.entries[i];
            entries.push(Entry { key: e.key.clone(), value: e.value });
            assert(entries@ =~= self.entries@.take(i + 1));
            i = i + 1;
        }
        assert(self.entries@.take(i as int) =~= self.entries@);
        Table { entries }
    }
}

} // verus!
