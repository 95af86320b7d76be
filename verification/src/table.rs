//! A keyed table: a list of entries in which no key occurs twice, seen as a
//! finite map from the keys' plain values to the stored values.
use vstd::prelude::*;

verus! {

/// A key that a [`Table`] can look up. Two keys are the same key exactly when
/// their plain values (`repr`) are equal.
pub trait TableKey: Sized {
    type Repr;

    spec fn repr(&self) -> Self::Repr;

    fn same_key(&self, other: &Self) -> (r: bool)
        ensures
            r == (self.repr() == other.repr()),
    ;
}

impl TableKey for String {
    type Repr = Seq<char>;

    open spec fn repr(&self) -> Seq<char> {
        self@
    }

    fn same_key(&self, other: &Self) -> (r: bool) {
        *self == *other
    }
}

impl TableKey for [u8; 32] {
    type Repr = Seq<u8>;

    open spec fn repr(&self) -> Seq<u8> {
        self@
    }

    fn same_key(&self, other: &Self) -> (r: bool) {
        let mut i: usize = 0;
        while i < 32
            invariant
                i <= 32,
                self@.len() == 32,
                other@.len() == 32,
                forall|j: int| 0 <= j < i ==> self@[j] == other@[j],
            decreases 32 - i,
        {
            if self[i] != other[i] {
                return false;
            }
            i = i + 1;
        }
        assert(self@ =~= other@);
        true
    }
}

/// Whether no key occurs twice among `s`.
pub open spec fn keys_distinct<K: TableKey, V>(s: Seq<(K, V)>) -> bool {
    forall|i: int, j: int|
        0 <= i < s.len() && 0 <= j < s.len() && #[trigger] s[i].0.repr() == #[trigger] s[j].0.repr()
            ==> i == j
}

/// Whether some entry of `s` has the key `k`.
pub open spec fn holds_key<K: TableKey, V>(s: Seq<(K, V)>, k: K::Repr) -> bool {
    exists|i: int| 0 <= i < s.len() && #[trigger] s[i].0.repr() == k
}

/// Where the key `k` stands in `s`.
pub open spec fn slot_of<K: TableKey, V>(s: Seq<(K, V)>, k: K::Repr) -> int {
    choose|i: int| 0 <= i < s.len() && #[trigger] s[i].0.repr() == k
}

/// The entries `s` read as a map from each key's plain value to its value.
pub open spec fn entries_map<K: TableKey, V>(s: Seq<(K, V)>) -> Map<K::Repr, V> {
    Map::new(|k: K::Repr| holds_key(s, k), |k: K::Repr| s[slot_of(s, k)].1)
}

proof fn lemma_slot<K: TableKey, V>(s: Seq<(K, V)>, i: int)
    requires
        keys_distinct(s),
        0 <= i < s.len(),
    ensures
        holds_key(s, s[i].0.repr()),
        slot_of(s, s[i].0.repr()) == i,
        entries_map(s).contains_key(s[i].0.repr()),
        entries_map(s)[s[i].0.repr()] == s[i].1,
{
    assert(holds_key(s, s[i].0.repr()));
}

proof fn lemma_replace<K: TableKey, V>(s: Seq<(K, V)>, i: int, e: (K, V))
    requires
        keys_distinct(s),
        0 <= i < s.len(),
        s[i].0.repr() == e.0.repr(),
    ensures
        keys_distinct(s.update(i, e)),
        entries_map(s.update(i, e)) == entries_map(s).insert(e.0.repr(), e.1),
{
    let t = s.update(i, e);
    let k = e.0.repr();
    assert forall|a: int, b: int|
        0 <= a < t.len() && 0 <= b < t.len() && #[trigger] t[a].0.repr() == #[trigger] t[b].0.repr()
        implies a == b by {
        assert(s[a].0.repr() == t[a].0.repr());
        assert(s[b].0.repr() == t[b].0.repr());
    }
    assert forall|q: K::Repr| #![auto] holds_key(t, q) == holds_key(s, q) by {
        if holds_key(t, q) {
            let j = choose|j: int| 0 <= j < t.len() && #[trigger] t[j].0.repr() == q;
            assert(s[j].0.repr() == q);
        }
        if holds_key(s, q) {
            let j = choose|j: int| 0 <= j < s.len() && #[trigger] s[j].0.repr() == q;
            assert(t[j].0.repr() == q);
        }
    }
    assert forall|q: K::Repr| #[trigger] holds_key(t, q) implies entries_map(t)[q]
        == entries_map(s).insert(k, e.1)[q] by {
        let j = slot_of(t, q);
        lemma_slot(t, j);
        if q != k {
            lemma_slot(s, j);
        }
    }
    assert(entries_map(t) =~= entries_map(s).insert(k, e.1));
}

proof fn lemma_append<K: TableKey, V>(s: Seq<(K, V)>, e: (K, V))
    requires
        keys_distinct(s),
        !holds_key(s, e.0.repr()),
    ensures
        keys_distinct(s.push(e)),
        entries_map(s.push(e)) == entries_map(s).insert(e.0.repr(), e.1),
{
    let t = s.push(e);
    let k = e.0.repr();
    let n = s.len() as int;
    assert forall|a: int, b: int|
        0 <= a < t.len() && 0 <= b < t.len() && #[trigger] t[a].0.repr() == #[trigger] t[b].0.repr()
        implies a == b by {
        if a < n && b == n {
            assert(s[a].0.repr() == k);
        }
        if b < n && a == n {
            assert(s[b].0.repr() == k);
        }
    }
    assert forall|q: K::Repr| #![auto] holds_key(t, q) == (holds_key(s, q) || q == k) by {
        if holds_key(t, q) {
            let j = choose|j: int| 0 <= j < t.len() && #[trigger] t[j].0.repr() == q;
            if j < n {
                assert(s[j].0.repr() == q);
            }
        }
        if holds_key(s, q) {
            let j = choose|j: int| 0 <= j < s.len() && #[trigger] s[j].0.repr() == q;
            assert(t[j].0.repr() == q);
        }
        if q == k {
            assert(t[n].0.repr() == q);
        }
    }
    assert forall|q: K::Repr| #[trigger] holds_key(t, q) implies entries_map(t)[q]
        == entries_map(s).insert(k, e.1)[q] by {
        let j = slot_of(t, q);
        lemma_slot(t, j);
        if q != k {
            lemma_slot(s, j);
        }
    }
    assert(entries_map(t) =~= entries_map(s).insert(k, e.1));
}

/// The map `m` after each entry of `s` was stored in turn, a later entry
/// replacing an earlier one with the same key.
pub open spec fn inserted_all<K: TableKey, V>(m: Map<K::Repr, V>, s: Seq<(K, V)>) -> Map<K::Repr, V>
    decreases s.len(),
{
    if s.len() == 0 {
        m
    } else {
        inserted_all(m, s.drop_last()).insert(s.last().0.repr(), s.last().1)
    }
}

/// Storing, in turn, entries whose keys are distinct gives the map those
/// entries stand for.
pub proof fn lemma_inserted_all_distinct<K: TableKey, V>(s: Seq<(K, V)>)
    requires
        keys_distinct(s),
    ensures
        inserted_all(Map::<K::Repr, V>::empty(), s) == entries_map(s),
    decreases s.len(),
{
    if s.len() == 0 {
        assert(entries_map(s) =~= Map::<K::Repr, V>::empty());
    } else {
        let init = s.drop_last();
        let e = s.last();
        assert forall|i: int, j: int|
            0 <= i < init.len() && 0 <= j < init.len() && #[trigger] init[i].0.repr() == #[trigger] init[j].0.repr()
            implies i == j by {
            assert(s[i].0.repr() == s[j].0.repr());
        }
        lemma_inserted_all_distinct(init);
        if holds_key(init, e.0.repr()) {
            let j = choose|j: int| 0 <= j < init.len() && #[trigger] init[j].0.repr() == e.0.repr();
            assert(s[j].0.repr() == s[s.len() - 1].0.repr());
        }
        lemma_append(init, e);
        assert(init.push(e) =~= s);
    }
}

/// Entries `(key, value)` whose keys are pairwise distinct.
pub struct Table<K: TableKey, V> {
    entries: Vec<(K, V)>,
}

impl<K: TableKey, V> Table<K, V> {
    #[verifier::type_invariant]
    spec fn distinct_keys(self) -> bool {
        keys_distinct(self.entries@)
    }

    /// The table as a map from each key's plain value to its value.
    pub closed spec fn as_map(self) -> Map<K::Repr, V> {
        entries_map(self.entries@)
    }

    /// An empty table.
    pub fn new() -> (t: Self)
        ensures
            t.as_map() == Map::<K::Repr, V>::empty(),
    {
        let t = Table { entries: Vec::new() };
        assert(t.as_map() =~= Map::<K::Repr, V>::empty());
        t
    }

    /// Where `key` stands among `entries`, if it does.
    fn find(entries: &Vec<(K, V)>, key: &K) -> (r: Option<usize>)
        ensures
            match r {
                Some(i) => i < entries.len() && entries@[i as int].0.repr() == key.repr(),
                None => !holds_key(entries@, key.repr()),
            },
    {
        let mut i: usize = 0;
        while i < entries.len()
            invariant
                i <= entries.len(),
                forall|j: int| 0 <= j < i ==> #[trigger] entries@[j].0.repr() != key.repr(),
            decreases entries.len() - i,
        {
            if entries[i].0.same_key(key) {
                return Some(i);
            }
            i = i + 1;
        }
        None
    }

    /// Whether `key` has an entry.
    pub fn contains(&self, key: &K) -> (r: bool)
        ensures
            r == self.as_map().contains_key(key.repr()),
    {
        match Self::find(&self.entries, key) {
            Some(i) => {
                proof {
                    use_type_invariant(self);
                    lemma_slot(self.entries@, i as int);
                }
                true
            },
            None => false,
        }
    }

    /// The value stored under `key`, if any.
    pub fn get(&self, key: &K) -> (r: Option<&V>)
        ensures
            r.is_some() == self.as_map().contains_key(key.repr()),
            r matches Some(v) ==> *v == self.as_map()[key.repr()],
    {
        match Self::find(&self.entries, key) {
            Some(i) => {
                proof {
                    use_type_invariant(self);
                    lemma_slot(self.entries@, i as int);
                }
                Some(&self.entries[i].1)
            },
            None => None,
        }
    }

    /// Stores `value` under `key`, replacing the value stored there before.
    pub fn insert(&mut self, key: K, value: V)
        ensures
            final(self).as_map() == old(self).as_map().insert(key.repr(), value),
    {
        proof {
            use_type_invariant(&*self);
        }
        let mut entries: Vec<(K, V)> = Vec::new();
        std::mem::swap(&mut entries, &mut self.entries);
        let ghost before = entries@;
        match Self::find(&entries, &key) {
            Some(i) => {
                proof {
                    lemma_replace(before, i as int, (key, value));
                }
                entries.set(i, (key, value));
            },
            None => {
                proof {
                    lemma_append(before, (key, value));
                }
                entries.push((key, value));
            },
        }
        self.entries = entries;
    }

    /// A table holding `entries`, stored in turn: a later entry replaces an
    /// earlier one with the same key.
    pub fn from_entries(entries: Vec<(K, V)>) -> (t: Self)
        ensures
            t.as_map() == inserted_all(Map::<K::Repr, V>::empty(), entries@),
    {
        let mut t = Table::new();
        let mut rest = entries;
        let ghost all = entries@;
        let total = rest.len();
        let mut i: usize = 0;
        while rest.len() > 0
            invariant
                i + rest.len() == all.len(),
                all.len() == total,
                rest@ == all.subrange(i as int, all.len() as int),
                t.as_map() == inserted_all(Map::<K::Repr, V>::empty(), all.take(i as int)),
            decreases rest.len(),
        {
            let e = rest.remove(0);
            proof {
                assert(e == all[i as int]);
                assert(all.take(i + 1).drop_last() =~= all.take(i as int));
            }
            t.insert(e.0, e.1);
            i = i + 1;
            proof {
                assert(rest@ =~= all.subrange(i as int, all.len() as int));
            }
        }
        assert(all.take(all.len() as int) =~= all);
        t
    }

    /// The entries, each key once.
    pub fn into_entries(self) -> (r: Vec<(K, V)>)
        ensures
            keys_distinct(r@),
            entries_map(r@) == self.as_map(),
    {
        proof {
            use_type_invariant(&self);
        }
        let Table { entries } = self;
        entries
    }
}

} // verus!
