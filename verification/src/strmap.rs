use vstd::prelude::*;

verus! {

/// Index of the first entry whose key is `k`, or -1 when no entry has that key.
pub open spec fn find_key<V>(s: Seq<(Seq<char>, V)>, k: Seq<char>) -> int
    decreases s.len(),
{
    if s.len() == 0 {
        -1
    } else if s[0].0 == k {
        0
    } else {
        let r = find_key(s.drop_first(), k);
        if r < 0 {
            -1
        } else {
            r + 1
        }
    }
}

/// No two entries share a key.
pub open spec fn keys_unique<V>(s: Seq<(Seq<char>, V)>) -> bool {
    forall|i: int, j: int| 0 <= i < j < s.len() ==> s[i].0 != s[j].0
}

/// The value stored under `k`, if any.
pub open spec fn lookup<V>(s: Seq<(Seq<char>, V)>, k: Seq<char>) -> Option<V> {
    let i = find_key(s, k);
    if i < 0 {
        None
    } else {
        Some(s[i].1)
    }
}

/// `find_key` either reports absence, in which case no entry has the key, or
/// the first position that holds it.
pub proof fn lemma_find_key<V>(s: Seq<(Seq<char>, V)>, k: Seq<char>)
    ensures
        -1 <= find_key(s, k) < s.len(),
        find_key(s, k) < 0 <==> forall|j: int| 0 <= j < s.len() ==> s[j].0 != k,
        find_key(s, k) >= 0 ==> s[find_key(s, k)].0 == k,
        forall|j: int| 0 <= j < find_key(s, k) ==> s[j].0 != k,
    decreases s.len(),
{
    if s.len() > 0 && s[0].0 != k {
        lemma_find_key(s.drop_first(), k);
        assert forall|j: int| 0 < j < s.len() implies s[j] == s.drop_first()[j - 1] by {}
        if find_key(s, k) < 0 {
            assert forall|j: int| 0 <= j < s.len() implies s[j].0 != k by {
                if j > 0 {
                    assert(s[j] == s.drop_first()[j - 1]);
                }
            }
        }
    }
}

/// The entries after storing `v` under `k`: an entry with that key keeps its
/// place and takes the new value; otherwise the pair goes to the end.
pub open spec fn inserted<V>(s: Seq<(Seq<char>, V)>, k: Seq<char>, v: V) -> Seq<(Seq<char>, V)> {
    let i = find_key(s, k);
    if i >= 0 {
        s.update(i, (k, v))
    } else {
        s.push((k, v))
    }
}

/// A map from strings to values that keeps its entries in insertion order.
/// It stands for a JSON object: no key occurs twice, and a second write
/// under a key replaces the first.
pub struct StrMap<V> {
    entries: Vec<(String, V)>,
}

impl<V> View for StrMap<V> {
    type V = Seq<(Seq<char>, V)>;

    closed spec fn view(&self) -> Seq<(Seq<char>, V)> {
        self.entries@.map_values(|e: (String, V)| (e.0@, e.1))
    }
}

impl<V> StrMap<V> {
    #[verifier::type_invariant]
    spec fn inv(self) -> bool {
        keys_unique(self@)
    }

    /// An empty map.
    pub fn new() -> (m: Self)
        ensures
            m@ == Seq::<(Seq<char>, V)>::empty(),
    {
        let m = StrMap { entries: Vec::new() };
        assert(m@ =~= Seq::<(Seq<char>, V)>::empty());
        m
    }

    /// Number of entries.
    pub fn len(&self) -> (n: usize)
        ensures
            n == self@.len(),
    {
        self.entries.len()
    }

    /// Position of `key`, searched from the front.
    fn position(&self, key: &String) -> (r: Option<usize>)
        ensures
            match r {
                Some(i) => i == find_key(self@, key@) && i < self@.len() && i < self.entries@.len(),
                None => find_key(self@, key@) < 0,
            },
    {
        proof {
            lemma_find_key(self@, key@);
        }
        let n = self.entries.len();
        let mut i: usize = 0;
        while i < n
            invariant
                n == self.entries@.len(),
                n == self@.len(),
                0 <= i <= n,
                forall|j: int| 0 <= j < i ==> self@[j].0 != key@,
                -1 <= find_key(self@, key@) < self@.len(),
                find_key(self@, key@) < 0 <==> forall|j: int|
                    0 <= j < self@.len() ==> self@[j].0 != key@,
                find_key(self@, key@) >= 0 ==> self@[find_key(self@, key@)].0 == key@,
                forall|j: int| 0 <= j < find_key(self@, key@) ==> self@[j].0 != key@,
            decreases n - i,
        {
            assert(self@[i as int].0 == self.entries@[i as int].0@);
            if self.entries[i].0 == *key {
                return Some(i);
            }
            i = i + 1;
        }
        None
    }

    /// The value stored under `key`, if any.
    pub fn get(&self, key: &String) -> (r: Option<&V>)
        ensures
            match r {
                Some(v) => lookup(self@, key@) == Some(*v),
                None => lookup(self@, key@) is None,
            },
    {
        match self.position(key) {
            Some(i) => {
                assert(self@[i as int].1 == self.entries@[i as int].1);
                Some(&self.entries[i].1)
            },
            None => None,
        }
    }

    /// Stores `value` under `key`. An entry with the same key keeps its
    /// place and takes the new value; a new key goes to the end.
    pub fn insert(&mut self, key: String, value: V)
        ensures
            final(self)@ == inserted(old(self)@, key@, value),
    {
        proof {
            use_type_invariant(&*self);
            lemma_find_key(self@, key@);
        }
        let ghost old_view = self@;
        match self.position(&key) {
            Some(i) => {
                let ghost k = key@;
                let mut entries: Vec<(String, V)> = Vec::new();
                std::mem::swap(&mut entries, &mut self.entries);
                entries.set(i, (key, value));
                proof {
                    assert(entries@.map_values(|e: (String, V)| (e.0@, e.1)) =~= old_view.update(
                        i as int,
                        (k, value),
                    ));
                }
                self.entries = entries;
            },
            None => {
                let ghost k = key@;
                let mut entries: Vec<(String, V)> = Vec::new();
                std::mem::swap(&mut entries, &mut self.entries);
                entries.push((key, value));
                proof {
                    assert(entries@.map_values(|e: (String, V)| (e.0@, e.1)) =~= old_view.push(
                        (k, value),
                    ));
                }
                self.entries = entries;
            },
        }
    }

    /// The key and value of entry `i`.
    pub fn entry(&self, i: usize) -> (r: (&String, &V))
        requires
            i < self@.len(),
        ensures
            r.0@ == self@[i as int].0,
            *r.1 == self@[i as int].1,
    {
        let e = &self.entries[i];
        (&e.0, &e.1)
    }

    /// All entries, in order.
    pub fn into_entries(self) -> (r: Vec<(String, V)>)
        ensures
            r@.map_values(|e: (String, V)| (e.0@, e.1)) == self@,
            keys_unique(self@),
    {
        proof {
            use_type_invariant(&self);
        }
        self.entries
    }
}

/// Reading a key gives the value stored beside it, and nothing exactly when
/// no entry has that key.
pub proof fn law_lookup_finds_entry<V>(s: Seq<(Seq<char>, V)>, i: int, k: Seq<char>)
    requires
        keys_unique(s),
        0 <= i < s.len(),
    ensures
        lookup(s, s[i].0) == Some(s[i].1),
        lookup(s, k) is None <==> forall|j: int| 0 <= j < s.len() ==> s[j].0 != k,
{
    lemma_find_key(s, s[i].0);
    lemma_find_key(s, k);
}

/// A read after a write gives back what was written.
pub proof fn law_lookup_after_insert<V>(s: Seq<(Seq<char>, V)>, k: Seq<char>, v: V)
    ensures
        lookup(inserted(s, k, v), k) == Some(v),
{
    lemma_find_key(s, k);
    let t = inserted(s, k, v);
    lemma_find_key(t, k);
    if find_key(s, k) < 0 {
        assert(t[s.len() as int].0 == k);
        assert(forall|j: int| 0 <= j < s.len() ==> t[j] == s[j]);
        lemma_find_key_last(t, k);
        assert(t[s.len() as int].1 == v);
    } else {
        let i = find_key(s, k);
        assert(forall|j: int| 0 <= j < i ==> t[j] == s[j]);
        assert(t[i].0 == k);
        assert(find_key(t, k) == i);
        assert(t[i].1 == v);
    }
}

/// A write under one key leaves what every other key reads unchanged.
pub proof fn law_lookup_other_key<V>(s: Seq<(Seq<char>, V)>, k: Seq<char>, v: V, k2: Seq<char>)
    requires
        k2 != k,
    ensures
        lookup(inserted(s, k, v), k2) == lookup(s, k2),
{
    lemma_find_key(s, k);
    lemma_find_key(s, k2);
    let t = inserted(s, k, v);
    lemma_find_key(t, k2);
    if find_key(s, k) >= 0 {
        let i = find_key(s, k);
        assert(forall|j: int| 0 <= j < s.len() && j != i ==> t[j] == s[j]);
        assert(t[i].0 == s[i].0);
        assert forall|j: int| 0 <= j < s.len() implies (t[j].0 == k2 <==> s[j].0 == k2) by {}
        lemma_same_keys_same_find(s, t, k2);
    } else {
        assert(forall|j: int| 0 <= j < s.len() ==> t[j] == s[j]);
        if find_key(s, k2) < 0 {
            assert(forall|j: int| 0 <= j < t.len() ==> t[j].0 != k2);
        } else {
            assert(t[find_key(s, k2)].0 == k2);
        }
    }
}

proof fn lemma_same_keys_same_find<V>(s: Seq<(Seq<char>, V)>, t: Seq<(Seq<char>, V)>, k: Seq<char>)
    requires
        s.len() == t.len(),
        forall|j: int| 0 <= j < s.len() ==> (t[j].0 == k <==> s[j].0 == k),
    ensures
        find_key(s, k) == find_key(t, k),
    decreases s.len(),
{
    if s.len() > 0 && s[0].0 != k {
        assert forall|j: int| 0 <= j < s.drop_first().len() implies (t.drop_first()[j].0 == k
            <==> s.drop_first()[j].0 == k) by {
            assert(s.drop_first()[j] == s[j + 1]);
            assert(t.drop_first()[j] == t[j + 1]);
        }
        lemma_same_keys_same_find(s.drop_first(), t.drop_first(), k);
    }
}

/// Writing keeps the keys distinct, and adds one entry exactly when the key is new.
pub proof fn law_insert_keeps_keys_unique<V>(s: Seq<(Seq<char>, V)>, k: Seq<char>, v: V)
    requires
        keys_unique(s),
    ensures
        keys_unique(inserted(s, k, v)),
        inserted(s, k, v).len() == s.len() + if lookup(s, k) is Some { 0int } else { 1int },
{
    lemma_find_key(s, k);
}

/// A second write under the same key replaces the first.
pub proof fn law_insert_twice<V>(s: Seq<(Seq<char>, V)>, k: Seq<char>, v1: V, v2: V)
    ensures
        inserted(inserted(s, k, v1), k, v2) == inserted(s, k, v2),
{
    lemma_find_key(s, k);
    let t = inserted(s, k, v1);
    lemma_find_key(t, k);
    if find_key(s, k) >= 0 {
        let i = find_key(s, k);
        assert(forall|j: int| 0 <= j < s.len() && j != i ==> t[j] == s[j]);
        assert forall|j: int| 0 <= j < s.len() implies (t[j].0 == k <==> s[j].0 == k) by {}
        lemma_same_keys_same_find(s, t, k);
        assert(inserted(t, k, v2) =~= inserted(s, k, v2));
    } else {
        assert(forall|j: int| 0 <= j < s.len() ==> t[j] == s[j]);
        assert(find_key(t, k) == s.len()) by {
            lemma_find_key_last(t, k);
        }
        assert(inserted(t, k, v2) =~= inserted(s, k, v2));
    }
}

proof fn lemma_find_key_last<V>(t: Seq<(Seq<char>, V)>, k: Seq<char>)
    requires
        t.len() > 0,
        t.last().0 == k,
        forall|j: int| 0 <= j < t.len() - 1 ==> t[j].0 != k,
    ensures
        find_key(t, k) == t.len() - 1,
{
    lemma_find_key(t, k);
}

} // verus!
