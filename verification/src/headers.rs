//! A header mapping with unique keys and a deterministic entry order.
//!
//! Entries are kept in insertion order; inserting under an existing key
//! replaces the value in place. The view is the sequence of
//! (name, value) character-sequence pairs, so serialization order is part
//! of every contract.

use vstd::prelude::*;

use crate::text::str_eq;

verus! {

/// Index of the first entry of `s` whose key is `k`, at or after `i`;
/// `s.len()` if there is none.
pub open spec fn key_idx(s: Seq<(Seq<char>, Seq<char>)>, k: Seq<char>, i: int) -> int
    decreases s.len() - i,
{
    if i < 0 || i >= s.len() {
        s.len() as int
    } else if s[i].0 == k {
        i
    } else {
        key_idx(s, k, i + 1)
    }
}

/// Whether some entry of `s` has key `k`.
pub open spec fn has_key(s: Seq<(Seq<char>, Seq<char>)>, k: Seq<char>) -> bool {
    key_idx(s, k, 0) < s.len()
}

/// The value stored under `k` (meaningful when `has_key(s, k)`).
pub open spec fn lookup(s: Seq<(Seq<char>, Seq<char>)>, k: Seq<char>) -> Seq<char> {
    s[key_idx(s, k, 0)].1
}

/// Insertion with last-write-wins semantics: an existing entry keeps its
/// position and takes the new value; a new key is appended.
pub open spec fn seq_insert(
    s: Seq<(Seq<char>, Seq<char>)>,
    k: Seq<char>,
    v: Seq<char>,
) -> Seq<(Seq<char>, Seq<char>)> {
    let i = key_idx(s, k, 0);
    if i < s.len() {
        s.update(i, (k, v))
    } else {
        s.push((k, v))
    }
}

pub proof fn lemma_key_idx_bounds(s: Seq<(Seq<char>, Seq<char>)>, k: Seq<char>, i: int)
    requires
        0 <= i <= s.len(),
    ensures
        i <= key_idx(s, k, i) <= s.len(),
        key_idx(s, k, i) < s.len() ==> s[key_idx(s, k, i)].0 == k,
        forall|j: int| i <= j < key_idx(s, k, i) ==> s[j].0 != k,
    decreases s.len() - i,
{
    if i < s.len() && s[i].0 != k {
        lemma_key_idx_bounds(s, k, i + 1);
    }
}

proof fn lemma_key_idx_insert_other_rec(
    s: Seq<(Seq<char>, Seq<char>)>,
    k: Seq<char>,
    v: Seq<char>,
    k2: Seq<char>,
    i: int,
)
    requires
        k != k2,
        0 <= i <= s.len(),
    ensures
        ({
            let s2 = seq_insert(s, k, v);
            let a = key_idx(s, k2, i);
            let b = key_idx(s2, k2, i);
            &&& (a < s.len() ==> b == a && s2[a] == s[a])
            &&& (a == s.len() ==> b == s2.len() as int)
        }),
    decreases s.len() - i,
{
    lemma_key_idx_bounds(s, k, 0);
    lemma_key_idx_bounds(s, k2, i);
    let s2 = seq_insert(s, k, v);
    if i >= s.len() {
        if s.len() < s2.len() {
            assert(s2[i].0 == k);
            assert(key_idx(s2, k2, i) == key_idx(s2, k2, i + 1));
        }
    } else {
        if s[i].0 == k2 {
            assert(s2[i] == s[i]);
        } else {
            assert(s2[i].0 == s[i].0);
            lemma_key_idx_insert_other_rec(s, k, v, k2, i + 1);
        }
    }
}

/// Inserting under one key leaves every other key's presence and value
/// unchanged.
pub proof fn lemma_insert_other_key(
    s: Seq<(Seq<char>, Seq<char>)>,
    k: Seq<char>,
    v: Seq<char>,
    k2: Seq<char>,
)
    requires
        k != k2,
    ensures
        has_key(seq_insert(s, k, v), k2) == has_key(s, k2),
        has_key(s, k2) ==> lookup(seq_insert(s, k, v), k2) == lookup(s, k2),
{
    lemma_key_idx_insert_other_rec(s, k, v, k2, 0);
    lemma_key_idx_bounds(s, k, 0);
    lemma_key_idx_bounds(s, k2, 0);
    lemma_key_idx_bounds(seq_insert(s, k, v), k2, 0);
    let s2 = seq_insert(s, k, v);
    let a = key_idx(s, k2, 0);
    let b = key_idx(s2, k2, 0);
    if key_idx(s, k, 0) < s.len() {
        assert(s2 == s.update(key_idx(s, k, 0), (k, v)));
        assert(s2.len() == s.len());
    } else {
        assert(s2 == s.push((k, v)));
        assert(s2.len() == s.len() + 1);
    }
    if a < s.len() {
        assert(b == a && s2[a] == s[a]);
        assert(has_key(s2, k2));
    } else {
        assert(a == s.len());
        assert(b == s2.len());
        assert(!has_key(s2, k2));
    }
}

proof fn lemma_key_idx_prefix(s: Seq<(Seq<char>, Seq<char>)>, k: Seq<char>, i: int, j: int)
    requires
        0 <= i <= j < s.len(),
        s[j].0 == k,
        forall|t: int| i <= t < j ==> s[t].0 != k,
    ensures
        key_idx(s, k, i) == j,
    decreases j - i,
{
    if i < j {
        lemma_key_idx_prefix(s, k, i + 1, j);
    }
}

/// Inserting under `k` makes `k` present with exactly the inserted value.
pub proof fn lemma_insert_same_key(s: Seq<(Seq<char>, Seq<char>)>, k: Seq<char>, v: Seq<char>)
    ensures
        has_key(seq_insert(s, k, v), k),
        lookup(seq_insert(s, k, v), k) == v,
{
    lemma_key_idx_bounds(s, k, 0);
    let j = key_idx(s, k, 0);
    let s2 = seq_insert(s, k, v);
    if j < s.len() {
        assert(s2 == s.update(j, (k, v)));
        assert(s2[j].0 == k);
        assert(forall|t: int| 0 <= t < j ==> s2[t].0 != k);
        lemma_key_idx_prefix(s2, k, 0, j);
    } else {
        assert(s2 == s.push((k, v)));
        assert(s2[s.len() as int].0 == k);
        assert(forall|t: int| 0 <= t < s.len() ==> s2[t].0 != k);
        lemma_key_idx_prefix(s2, k, 0, s.len() as int);
    }
}

#[derive(Debug)]
pub struct HeaderMap {
    entries: Vec<(String, String)>,
}

impl View for HeaderMap {
    type V = Seq<(Seq<char>, Seq<char>)>;

    closed spec fn view(&self) -> Seq<(Seq<char>, Seq<char>)> {
        Seq::new(self.entries@.len(), |i: int| (self.entries@[i].0@, self.entries@[i].1@))
    }
}

impl HeaderMap {
    /// An empty mapping.
    pub fn new() -> (r: HeaderMap)
        ensures
            r@ == Seq::<(Seq<char>, Seq<char>)>::empty(),
    {
        let r = HeaderMap { entries: Vec::new() };
        proof {
            assert(r@ =~= Seq::<(Seq<char>, Seq<char>)>::empty());
        }
        r
    }

    pub fn len(&self) -> (n: usize)
        ensures
            n == self@.len(),
    {
        self.entries.len()
    }

    /// The name of the entry at position `i`.
    pub fn key_at(&self, i: usize) -> (r: &String)
        requires
            i < self@.len(),
        ensures
            r@ == self@[i as int].0,
    {
        &self.entries[i].0
    }

    /// The value of the entry at position `i`.
    pub fn val_at(&self, i: usize) -> (r: &String)
        requires
            i < self@.len(),
        ensures
            r@ == self@[i as int].1,
    {
        &self.entries[i].1
    }

    fn find(&self, k: &str) -> (r: usize)
        ensures
            r == key_idx(self@, k@, 0),
            r <= self@.len(),
    {
        let n = self.entries.len();
        let mut i: usize = 0;
        while i < n
            invariant
                n == self@.len(),
                n == self.entries@.len(),
                i <= n,
                key_idx(self@, k@, 0) == key_idx(self@, k@, i as int),
            decreases n - i,
        {
            if str_eq(self.entries[i].0.as_str(), k) {
                proof {
                    lemma_key_idx_bounds(self@, k@, i as int);
                }
                return i;
            }
            i += 1;
        }
        n
    }

    /// Whether the mapping holds an entry named `k`.
    pub fn contains_key(&self, k: &str) -> (r: bool)
        ensures
            r == has_key(self@, k@),
    {
        let i = self.find(k);
        i < self.entries.len()
    }

    /// The value stored under `k`, if any.
    pub fn get(&self, k: &str) -> (r: Option<&String>)
        ensures
            match r {
                Some(v) => has_key(self@, k@) && v@ == lookup(self@, k@),
                None => !has_key(self@, k@),
            },
    {
        let i = self.find(k);
        if i < self.entries.len() {
            Some(&self.entries[i].1)
        } else {
            None
        }
    }

    /// Store `v` under `k`: an existing entry keeps its place and takes the
    /// new value, a new name is appended at the end.
    pub fn insert(&mut self, k: String, v: String)
        ensures
            final(self)@ == seq_insert(old(self)@, k@, v@),
    {
        let i = self.find(k.as_str());
        if i < self.entries.len() {
            let kept = self.entries[i].0.clone();
            self.entries.set(i, (kept, v));
            proof {
                lemma_key_idx_bounds(old(self)@, k@, 0);
                assert(self@ =~= seq_insert(old(self)@, k@, v@));
            }
        } else {
            self.entries.push((k, v));
            proof {
                assert(self@ =~= seq_insert(old(self)@, k@, v@));
            }
        }
    }

    /// An independent copy with the same entries in the same order.
    pub fn duplicate(&self) -> (r: HeaderMap)
        ensures
            r@ == self@,
    {
        let n = self.entries.len();
        let mut out: Vec<(String, String)> = Vec::new();
        let mut i: usize = 0;
        while i < n
            invariant
                n == self.entries@.len(),
                i <= n,
                out@.len() == i,
                forall|j: int|
                    0 <= j < i ==> (out@[j].0@, out@[j].1@) == (
                        self.entries@[j].0@,
                        self.entries@[j].1@,
                    ),
            decreases n - i,
        {
            let k = self.entries[i].0.clone();
            let v = self.entries[i].1.clone();
            out.push((k, v));
            i += 1;
        }
        let r = HeaderMap { entries: out };
        proof {
            assert(r@ =~= self@);
        }
        r
    }
}

} // verus!
