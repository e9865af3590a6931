//! An alias-keyed store kept as a list of entries.
//!
//! The first entry that carries a key decides what the key maps to. The
//! operations never add a second entry for a key, but a list that holds one
//! (handed to [`Registry::from_entries`]) still has a well-defined meaning.

use vstd::prelude::*;

verus! {

/// Some entry of `s` carries the key `k`.
pub open spec fn holds<V>(s: Seq<(String, V)>, k: Seq<char>) -> bool {
    exists|i: int| 0 <= i < s.len() && (#[trigger] s[i]).0@ == k
}

/// `i` is the position of the first entry of `s` that carries the key `k`.
pub open spec fn is_first<V>(s: Seq<(String, V)>, k: Seq<char>, i: int) -> bool {
    &&& 0 <= i < s.len()
    &&& s[i].0@ == k
    &&& forall|j: int| 0 <= j < i ==> (#[trigger] s[j]).0@ != k
}

/// The position of the first entry of `s` that carries the key `k`.
pub open spec fn first<V>(s: Seq<(String, V)>, k: Seq<char>) -> int {
    choose|i: int| is_first(s, k, i)
}

/// The map that a list of entries stands for: each key that occurs maps to the
/// value of its first entry.
pub open spec fn entries_map<V: View>(s: Seq<(String, V)>) -> Map<Seq<char>, V::V> {
    Map::new(|k: Seq<char>| holds(s, k), |k: Seq<char>| s[first(s, k)].1@)
}

/// A first position is the only one.
pub proof fn lemma_first_unique<V>(s: Seq<(String, V)>, k: Seq<char>, i: int)
    requires
        is_first(s, k, i),
    ensures
        first(s, k) == i,
        holds(s, k),
{
    let c = first(s, k);
    assert(is_first(s, k, c));
    if c < i {
        assert(s[c].0@ != k);
    } else if i < c {
        assert(s[i].0@ != k);
    }
}

/// Below every entry with the key `k` stands a first one.
pub proof fn lemma_first_exists<V>(s: Seq<(String, V)>, k: Seq<char>, i: int)
    requires
        0 <= i < s.len(),
        s[i].0@ == k,
    ensures
        is_first(s, k, first(s, k)),
        first(s, k) <= i,
    decreases i,
{
    if forall|j: int| 0 <= j < i ==> (#[trigger] s[j]).0@ != k {
        lemma_first_unique(s, k, i);
    } else {
        let j = choose|j: int| 0 <= j < i && (#[trigger] s[j]).0@ == k;
        lemma_first_exists(s, k, j);
    }
}

/// A key that the list holds has a first entry.
pub proof fn lemma_holds_first<V>(s: Seq<(String, V)>, k: Seq<char>)
    requires
        holds(s, k),
    ensures
        is_first(s, k, first(s, k)),
{
    let i = choose|i: int| 0 <= i < s.len() && (#[trigger] s[i]).0@ == k;
    lemma_first_exists(s, k, i);
}

/// Replacing the value of a key's first entry, or appending an entry for a key
/// that the list lacks, is an insertion into the map.
pub proof fn lemma_put<V: View>(s: Seq<(String, V)>, t: Seq<(String, V)>, e: (String, V))
    requires
        is_first(s, e.0@, first(s, e.0@)) && t == s.update(first(s, e.0@), e) || !holds(s, e.0@)
            && t == s.push(e),
    ensures
        entries_map(t) == entries_map(s).insert(e.0@, e.1@),
{
    let k = e.0@;
    let at = if holds(s, k) { first(s, k) } else { s.len() as int };
    if holds(s, k) {
        lemma_holds_first(s, k);
    }
    assert(t[at] == e);
    assert(is_first(t, k, at)) by {
        assert forall|j: int| 0 <= j < at implies (#[trigger] t[j]).0@ != k by {
            assert(t[j] == s[j]);
            if !holds(s, k) {
                assert(s[j].0@ != k);
            }
        }
    }
    lemma_first_unique(t, k, at);
    assert forall|q: Seq<char>| q != k implies (holds(t, q) <==> holds(s, q)) && (holds(s, q)
        ==> t[first(t, q)].1@ == s[first(s, q)].1@) by {
        if holds(s, q) {
            lemma_holds_first(s, q);
            let a = first(s, q);
            assert(t[a] == s[a]);
            assert(is_first(t, q, a)) by {
                assert forall|j: int| 0 <= j < a implies (#[trigger] t[j]).0@ != q by {
                    if j != at {
                        assert(t[j] == s[j]);
                    }
                }
            }
            lemma_first_unique(t, q, a);
        }
        if holds(t, q) {
            let b = choose|b: int| 0 <= b < t.len() && (#[trigger] t[b]).0@ == q;
            assert(b != at);
            assert(t[b] == s[b]);
        }
    }
    assert(entries_map(t) =~= entries_map(s).insert(k, e.1@));
}

/// Taking out one entry with the key `k` changes nothing for the other keys.
pub proof fn lemma_take_out<V: View>(s: Seq<(String, V)>, k: Seq<char>, i: int)
    requires
        0 <= i < s.len(),
        s[i].0@ == k,
    ensures
        entries_map(s.remove(i)).remove(k) == entries_map(s).remove(k),
{
    let t = s.remove(i);
    assert forall|q: Seq<char>| q != k implies (holds(t, q) <==> holds(s, q)) && (holds(s, q)
        ==> t[first(t, q)].1@ == s[first(s, q)].1@) by {
        if holds(s, q) {
            lemma_holds_first(s, q);
            let a = first(s, q);
            let b = if a < i { a } else { a - 1 };
            assert(t[b] == s[a]);
            assert(is_first(t, q, b)) by {
                assert forall|j: int| 0 <= j < b implies (#[trigger] t[j]).0@ != q by {
                    if j < i {
                        assert(t[j] == s[j]);
                    } else {
                        assert(t[j] == s[j + 1]);
                    }
                }
            }
            lemma_first_unique(t, q, b);
        }
        if holds(t, q) {
            let b = choose|b: int| 0 <= b < t.len() && (#[trigger] t[b]).0@ == q;
            if b < i {
                assert(t[b] == s[b]);
            } else {
                assert(t[b] == s[b + 1]);
            }
        }
    }
    assert(entries_map(t).remove(k) =~= entries_map(s).remove(k));
}

/// Lists whose entries agree position by position, in key and in value, stand
/// for the same map.
pub proof fn lemma_same_entries<V: View>(s: Seq<(String, V)>, t: Seq<(String, V)>)
    requires
        s.len() == t.len(),
        forall|i: int| 0 <= i < s.len() ==> (#[trigger] s[i]).0@ == t[i].0@ && s[i].1@ == t[i].1@,
    ensures
        entries_map(s) == entries_map(t),
{
    assert forall|q: Seq<char>| (holds(t, q) <==> holds(s, q)) && (holds(s, q) ==> t[first(
        t,
        q,
    )].1@ == s[first(s, q)].1@) by {
        if holds(s, q) {
            lemma_holds_first(s, q);
            let a = first(s, q);
            assert(s[a].0@ == t[a].0@);
            assert(is_first(t, q, a)) by {
                assert forall|j: int| 0 <= j < a implies (#[trigger] t[j]).0@ != q by {
                    assert(s[j].0@ == t[j].0@);
                }
            }
            lemma_first_unique(t, q, a);
        }
        if holds(t, q) {
            let b = choose|b: int| 0 <= b < t.len() && (#[trigger] t[b]).0@ == q;
            assert(s[b].0@ == t[b].0@);
        }
    }
    assert(entries_map(s) =~= entries_map(t));
}

/// A store from aliases to values, in the order in which the aliases came.
pub struct Registry<V> {
    entries: Vec<(String, V)>,
}

impl<V: View> View for Registry<V> {
    type V = Map<Seq<char>, V::V>;

    closed spec fn view(&self) -> Map<Seq<char>, V::V> {
        entries_map(self.entries@)
    }
}

impl<V: View> Registry<V> {
    /// An empty store.
    pub fn new() -> (r: Self)
        ensures
            r@ == Map::<Seq<char>, V::V>::empty(),
    {
        let r = Registry { entries: Vec::new() };
        assert(r@ =~= Map::<Seq<char>, V::V>::empty());
        r
    }

    /// The store that a list of entries stands for.
    pub fn from_entries(entries: Vec<(String, V)>) -> (r: Self)
        ensures
            r@ == entries_map(entries@),
    {
        Registry { entries }
    }

    /// The entries of the store, in order.
    pub fn entries(&self) -> (r: &Vec<(String, V)>)
        ensures
            entries_map(r@) == self@,
    {
        &self.entries
    }

    /// Where the first entry for `key` stands, if there is one.
    fn position(&self, key: &String) -> (r: Option<usize>)
        ensures
            match r {
                Some(i) => is_first(self.entries@, key@, i as int),
                None => !holds(self.entries@, key@),
            },
    {
        let mut i: usize = 0;
        while i < self.entries.len()
            invariant
                i <= self.entries.len(),
                forall|j: int| 0 <= j < i ==> (#[trigger] self.entries@[j]).0@ != key@,
            decreases self.entries.len() - i,
        {
            if self.entries[i].0 == *key {
                return Some(i);
            }
            i += 1;
        }
        None
    }

    /// Whether the store holds a value for `key`.
    pub fn contains_key(&self, key: &String) -> (r: bool)
        ensures
            r == self@.contains_key(key@),
    {
        self.position(key).is_some()
    }

    /// The value stored for `key`.
    pub fn get(&self, key: &String) -> (r: Option<&V>)
        ensures
            match r {
                Some(v) => self@.contains_key(key@) && v@ == self@[key@],
                None => !self@.contains_key(key@),
            },
    {
        match self.position(key) {
            Some(i) => {
                proof {
                    lemma_first_unique(self.entries@, key@, i as int);
                }
                Some(&self.entries[i].1)
            },
            None => None,
        }
    }

    /// Stores `value` for `key`, in place of what was stored for it.
    pub fn insert(&mut self, key: String, value: V)
        ensures
            final(self)@ == old(self)@.insert(key@, value@),
    {
        let ghost before = self.entries@;
        match self.position(&key) {
            Some(i) => {
                proof {
                    lemma_first_unique(before, key@, i as int);
                }
                self.entries.set(i, (key, value));
            },
            None => {
                self.entries.push((key, value));
            },
        }
        proof {
            lemma_put(before, self.entries@, (key, value));
        }
    }

    /// Forgets what was stored for `key`.
    pub fn remove(&mut self, key: &String)
        ensures
            final(self)@ == old(self)@.remove(key@),
    {
        let mut i: usize = 0;
        while i < self.entries.len()
            invariant
                i <= self.entries.len(),
                entries_map(self.entries@).remove(key@) == entries_map(old(self).entries@).remove(
                    key@,
                ),
                forall|j: int| 0 <= j < i ==> (#[trigger] self.entries@[j]).0@ != key@,
            decreases self.entries.len() - i,
        {
            if self.entries[i].0 == *key {
                proof {
                    lemma_take_out(self.entries@, key@, i as int);
                }
                self.entries.remove(i);
            } else {
                i += 1;
            }
        }
        assert(!holds(self.entries@, key@));
        assert(entries_map(self.entries@).remove(key@) =~= entries_map(self.entries@));
    }
}

} // verus!
