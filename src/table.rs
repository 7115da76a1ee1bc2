use vstd::prelude::*;

verus! {

/// A table keyed by address strings, held as a list of entries with
/// distinct keys in insertion order.
#[derive(Debug, Clone)]
pub struct AddressTable<V> {
    pub entries: Vec<(String, V)>,
}

/// The strings of a list, as character sequences.
pub open spec fn texts_of(v: Vec<String>) -> Seq<Seq<char>> {
    v@.map_values(|s: String| s@)
}

/// Whether a list of strings holds `s`.
pub fn list_contains(v: &Vec<String>, s: &String) -> (r: bool)
    ensures
        r == texts_of(*v).contains(s@),
{
    let mut i: usize = 0;
    while i < v.len()
        invariant
            0 <= i <= v@.len(),
            forall|j: int| 0 <= j < i ==> v@[j]@ != s@,
        decreases v@.len() - i,
    {
        if v[i] == *s {
            assert(texts_of(*v)[i as int] == s@);
            return true;
        }
        i += 1;
    }
    proof {
        if texts_of(*v).contains(s@) {
            let k = choose|k: int| 0 <= k < texts_of(*v).len() && texts_of(*v)[k] == s@;
            assert(v@[k]@ == s@);
        }
    }
    false
}

/// Entries with their keys as character sequences.
pub open spec fn entries_model<V>(s: Seq<(String, V)>) -> Seq<(Seq<char>, V)> {
    s.map_values(|e: (String, V)| (e.0@, e.1))
}

/// Whether `i` is the first position of key `k` in `s`.
pub open spec fn is_first<V>(s: Seq<(Seq<char>, V)>, k: Seq<char>, i: int) -> bool {
    &&& 0 <= i < s.len()
    &&& s[i].0 == k
    &&& forall|j: int| 0 <= j < i ==> s[j].0 != k
}

/// Whether key `k` occurs in `s`.
pub open spec fn has_key<V>(s: Seq<(Seq<char>, V)>, k: Seq<char>) -> bool {
    exists|i: int| 0 <= i < s.len() && s[i].0 == k
}

/// The first position of key `k` in `s`, where there is one.
pub open spec fn first_index<V>(s: Seq<(Seq<char>, V)>, k: Seq<char>) -> int {
    choose|i: int| is_first(s, k, i)
}

/// The value bound to `k` in `s`.
pub open spec fn lookup<V>(s: Seq<(Seq<char>, V)>, k: Seq<char>) -> Option<V> {
    if has_key(s, k) {
        Some(s[first_index(s, k)].1)
    } else {
        None
    }
}

/// `s` with `k` bound to `v`: the binding replaced in place, or appended.
pub open spec fn put<V>(s: Seq<(Seq<char>, V)>, k: Seq<char>, v: V) -> Seq<(Seq<char>, V)> {
    if has_key(s, k) {
        s.update(first_index(s, k), (k, v))
    } else {
        s.push((k, v))
    }
}

/// A key that occurs has a first position.
pub proof fn lemma_first_exists<V>(s: Seq<(Seq<char>, V)>, k: Seq<char>, i: int)
    requires
        0 <= i < s.len(),
        s[i].0 == k,
    ensures
        is_first(s, k, first_index(s, k)),
    decreases i,
{
    if exists|j: int| 0 <= j < i && s[j].0 == k {
        let j = choose|j: int| 0 <= j < i && s[j].0 == k;
        lemma_first_exists(s, k, j);
    } else {
        assert(is_first(s, k, i));
    }
}

pub proof fn lemma_first_unique<V>(s: Seq<(Seq<char>, V)>, k: Seq<char>, i: int)
    requires
        is_first(s, k, i),
    ensures
        has_key(s, k),
        first_index(s, k) == i,
{
    assert(has_key(s, k));
    let j = first_index(s, k);
    assert(is_first(s, k, j));
    if j < i {
        assert(s[j].0 != k);
    }
    if i < j {
        assert(s[i].0 != k);
    }
}

/// Where `i` is the first position of `k`, the lookup yields the value there.
pub proof fn lemma_lookup_at<V>(s: Seq<(Seq<char>, V)>, k: Seq<char>, i: int)
    requires
        is_first(s, k, i),
    ensures
        lookup(s, k) == Some(s[i].1),
{
    lemma_first_unique(s, k, i);
}

/// After binding a key, the lookup of that key yields the new value.
pub proof fn lemma_lookup_put<V>(s: Seq<(Seq<char>, V)>, k: Seq<char>, v: V)
    ensures
        lookup(put(s, k, v), k) == Some(v),
{
    let t = put(s, k, v);
    if has_key(s, k) {
        let w = choose|w: int| 0 <= w < s.len() && s[w].0 == k;
        lemma_first_exists(s, k, w);
        let i = first_index(s, k);
        assert(is_first(t, k, i));
        lemma_lookup_at(t, k, i);
    } else {
        assert(is_first(t, k, s.len() as int));
        lemma_lookup_at(t, k, s.len() as int);
    }
}

/// Binding one key leaves the lookup of every other key as it was.
pub proof fn lemma_put_other<V>(s: Seq<(Seq<char>, V)>, k: Seq<char>, v: V, other: Seq<char>)
    requires
        k != other,
    ensures
        lookup(put(s, k, v), other) == lookup(s, other),
{
    let t = put(s, k, v);
    if has_key(s, k) {
        let w = choose|w: int| 0 <= w < s.len() && s[w].0 == k;
        lemma_first_exists(s, k, w);
    }
    if has_key(s, other) {
        let w = choose|w: int| 0 <= w < s.len() && s[w].0 == other;
        lemma_first_exists(s, other, w);
        let i = first_index(s, other);
        assert(is_first(t, other, i));
        lemma_first_unique(t, other, i);
    } else {
        assert forall|j: int| 0 <= j < t.len() implies t[j].0 != other by {
            if j < s.len() && has_key(s, k) && j == first_index(s, k) {
            } else if j < s.len() {
                assert(t[j] == s[j]);
            }
        }
    }
}

impl<V> AddressTable<V> {
    /// The entries, with keys as character sequences.
    pub open spec fn model(&self) -> Seq<(Seq<char>, V)> {
        entries_model(self.entries@)
    }

    /// An empty table.
    pub fn new() -> (r: Self)
        ensures
            r.model() == Seq::<(Seq<char>, V)>::empty(),
    {
        let r = AddressTable { entries: Vec::new() };
        assert(r.model() =~= Seq::<(Seq<char>, V)>::empty());
        r
    }

    /// Number of entries.
    pub fn len(&self) -> (r: usize)
        ensures
            r == self.model().len(),
    {
        self.entries.len()
    }

    /// Position of `key`, if it is bound.
    pub fn position_of(&self, key: &str) -> (r: Option<usize>)
        ensures
            match r {
                Some(i) => is_first(self.model(), key@, i as int) && first_index(self.model(), key@)
                    == i,
                None => !has_key(self.model(), key@),
            },
    {
        let k = key.to_owned();
        self.position(&k)
    }

    /// Puts `value` at position `i` in place of the value there, which is returned.
    pub fn replace_at(&mut self, i: usize, value: V) -> (r: V)
        requires
            i < old(self).model().len(),
        ensures
            r == old(self).model()[i as int].1,
            final(self).model() == old(self).model().update(i as int, (old(self).model()[i as int].0, value)),
    {
        let (k, v) = self.entries.remove(i);
        let ghost kv = k@;
        self.entries.insert(i, (k, value));
        assert(self.model() =~= old(self).model().update(i as int, (kv, value)));
        v
    }

    /// Position of `key`, if it is bound.
    fn position(&self, key: &String) -> (r: Option<usize>)
        ensures
            match r {
                Some(i) => is_first(self.model(), key@, i as int) && first_index(self.model(), key@)
                    == i,
                None => !has_key(self.model(), key@),
            },
    {
        let mut i: usize = 0;
        while i < self.entries.len()
            invariant
                0 <= i <= self.entries@.len(),
                forall|j: int| 0 <= j < i ==> self.model()[j].0 != key@,
            decreases self.entries@.len() - i,
        {
            if self.entries[i].0 == *key {
                proof {
                    lemma_first_unique(self.model(), key@, i as int);
                }
                return Some(i);
            }
            i += 1;
        }
        None
    }

    /// The value bound to `key`.
    pub fn get(&self, key: &str) -> (r: Option<&V>)
        ensures
            match r {
                Some(v) => lookup(self.model(), key@) == Some(*v),
                None => lookup(self.model(), key@) is None,
            },
    {
        let k = key.to_owned();
        match self.position(&k) {
            Some(i) => Some(&self.entries[i].1),
            None => None,
        }
    }

    /// Whether `key` is bound.
    pub fn contains_key(&self, key: &str) -> (r: bool)
        ensures
            r == has_key(self.model(), key@),
    {
        let k = key.to_owned();
        self.position(&k).is_some()
    }

    /// Binds `key` to `value`, replacing an existing binding in place.
    pub fn insert(&mut self, key: String, value: V)
        ensures
            final(self).model() == put(old(self).model(), key@, value),
    {
        match self.position(&key) {
            Some(i) => {
                let ghost k = key@;
                self.entries.set(i, (key, value));
                assert(self.model() =~= put(old(self).model(), k, value));
            },
            None => {
                let ghost k = key@;
                self.entries.push((key, value));
                assert(self.model() =~= put(old(self).model(), k, value));
            },
        }
    }
}

} // verus!
