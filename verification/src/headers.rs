//! A map of header names to values that keeps each name once, in the order
//! the names were first inserted.

use vstd::prelude::*;
use crate::text::str_eq;

verus! {

/// The names and values of `entries` as character sequences.
pub open spec fn pairs_of(entries: Seq<(String, String)>) -> Seq<(Seq<char>, Seq<char>)> {
    entries.map_values(|e: (String, String)| (e.0@, e.1@))
}

/// `k` is the name of some pair of `p`.
pub open spec fn has_key(p: Seq<(Seq<char>, Seq<char>)>, k: Seq<char>) -> bool {
    exists|i: int| 0 <= i < p.len() && #[trigger] p[i].0 == k
}

/// No name occurs twice in `p`.
pub open spec fn keys_distinct(p: Seq<(Seq<char>, Seq<char>)>) -> bool {
    forall|i: int, j: int| 0 <= i < p.len() && 0 <= j < p.len() && i != j ==> #[trigger] p[i].0 != #[trigger] p[j].0
}

/// The position of the pair named `k` (meaningful when `has_key(p, k)`).
pub open spec fn key_index(p: Seq<(Seq<char>, Seq<char>)>, k: Seq<char>) -> int {
    choose|i: int| 0 <= i < p.len() && #[trigger] p[i].0 == k
}

/// The value stored under `k`, if any.
pub open spec fn lookup(p: Seq<(Seq<char>, Seq<char>)>, k: Seq<char>) -> Option<Seq<char>> {
    if has_key(p, k) {
        Some(p[key_index(p, k)].1)
    } else {
        None
    }
}

/// Inserting `k -> v`: the value of an existing pair named `k` is replaced
/// in place, otherwise the pair goes at the end.
pub open spec fn pairs_insert(
    p: Seq<(Seq<char>, Seq<char>)>,
    k: Seq<char>,
    v: Seq<char>,
) -> Seq<(Seq<char>, Seq<char>)> {
    if has_key(p, k) {
        p.update(key_index(p, k), (k, v))
    } else {
        p.push((k, v))
    }
}

/// The pairs obtained by inserting the pairs of `s` in order into an empty map.
pub open spec fn pairs_from(s: Seq<(Seq<char>, Seq<char>)>) -> Seq<(Seq<char>, Seq<char>)>
    decreases s.len(),
{
    if s.len() == 0 {
        Seq::empty()
    } else {
        pairs_insert(pairs_from(s.drop_last()), s.last().0, s.last().1)
    }
}

/// Insertion keeps names distinct and sets the looked-up value of `k` to
/// `v`, leaving every other name's value as it was.
pub proof fn law_insert_then_lookup(p: Seq<(Seq<char>, Seq<char>)>, k: Seq<char>, v: Seq<char>)
    requires
        keys_distinct(p),
    ensures
        keys_distinct(pairs_insert(p, k, v)),
        lookup(pairs_insert(p, k, v), k) == Some(v),
        forall|k2: Seq<char>| k2 != k ==> lookup(pairs_insert(p, k, v), k2) == lookup(p, k2),
{
    let q = pairs_insert(p, k, v);
    if has_key(p, k) {
        let i = key_index(p, k);
        assert(q[i].0 == k);
        assert forall|k2: Seq<char>| k2 != k implies lookup(q, k2) == lookup(p, k2) by {
            if has_key(p, k2) {
                let j = key_index(p, k2);
                assert(q[j].0 == k2);
            }
            if has_key(q, k2) {
                let j = key_index(q, k2);
                assert(p[j].0 == k2);
            }
        }
    } else {
        assert(q[p.len() as int].0 == k);
        assert forall|k2: Seq<char>| k2 != k implies lookup(q, k2) == lookup(p, k2) by {
            if has_key(p, k2) {
                let j = key_index(p, k2);
                assert(q[j].0 == k2);
            }
            if has_key(q, k2) {
                let j = key_index(q, k2);
                assert(p[j].0 == k2);
            }
        }
    }
}

/// Inserting pairs whose names are already distinct, in order, gives back
/// the same pairs: a map passes such headers on unchanged.
pub proof fn law_distinct_pairs_pass_unchanged(s: Seq<(Seq<char>, Seq<char>)>)
    requires
        keys_distinct(s),
    ensures
        pairs_from(s) == s,
    decreases s.len(),
{
    if s.len() > 0 {
        let p = s.drop_last();
        assert(keys_distinct(p));
        law_distinct_pairs_pass_unchanged(p);
        if has_key(p, s.last().0) {
            let i = key_index(p, s.last().0);
            assert(s[i].0 == s[s.len() - 1].0);
        }
        assert(p.push(s.last()) =~= s);
    }
}

/// Header names and values, each name once.
pub struct HeaderMap {
    entries: Vec<(String, String)>,
}

impl View for HeaderMap {
    type V = Seq<(Seq<char>, Seq<char>)>;

    closed spec fn view(&self) -> Seq<(Seq<char>, Seq<char>)> {
        pairs_of(self.entries@)
    }
}

impl HeaderMap {
    #[verifier::type_invariant]
    spec fn inv(self) -> bool {
        keys_distinct(pairs_of(self.entries@))
    }

    /// An empty map.
    pub fn new() -> (r: HeaderMap)
        ensures
            r@ == Seq::<(Seq<char>, Seq<char>)>::empty(),
    {
        let r = HeaderMap { entries: Vec::new() };
        assert(r@ =~= Seq::<(Seq<char>, Seq<char>)>::empty());
        r
    }

    /// The number of names.
    pub fn len(&self) -> (r: usize)
        ensures
            r == self@.len(),
    {
        self.entries.len()
    }

    /// The pairs in insertion order of their names.
    pub fn entries(&self) -> (r: &Vec<(String, String)>)
        ensures
            pairs_of(r@) == self@,
    {
        &self.entries
    }

    fn find(&self, key: &str) -> (r: Option<usize>)
        ensures
            r is None <==> !has_key(self@, key@),
            r matches Some(i) ==> i < self@.len() && self@[i as int].0 == key@ && i
                == key_index(self@, key@),
    {
        proof {
            use_type_invariant(self);
        }
        let mut i: usize = 0;
        while i < self.entries.len()
            invariant
                i <= self.entries@.len(),
                self@ == pairs_of(self.entries@),
                keys_distinct(self@),
                forall|j: int| 0 <= j < i ==> self@[j].0 != key@,
            decreases self.entries@.len() - i,
        {
            if str_eq(self.entries[i].0.as_str(), key) {
                assert(self@[i as int].0 == key@);
                let ghost c = key_index(self@, key@);
                assert(self@[c].0 == key@);
                return Some(i);
            }
            i = i + 1;
        }
        None
    }

    /// Whether `key` is a name of the map.
    pub fn contains_key(&self, key: &str) -> (r: bool)
        ensures
            r == has_key(self@, key@),
    {
        self.find(key).is_some()
    }

    /// The value stored under `key`.
    pub fn get(&self, key: &str) -> (r: Option<&String>)
        ensures
            match r {
                Some(v) => lookup(self@, key@) == Some(v@),
                None => lookup(self@, key@) is None,
            },
    {
        match self.find(key) {
            Some(i) => Some(&self.entries[i].1),
            None => None,
        }
    }

    /// Stores `value` under `key`, replacing the value of an existing pair
    /// with that name.
    pub fn insert(&mut self, key: String, value: String)
        ensures
            final(self)@ == pairs_insert(old(self)@, key@, value@),
            lookup(final(self)@, key@) == Some(value@),
            forall|k2: Seq<char>| k2 != key@ ==> lookup(final(self)@, k2) == lookup(old(self)@, k2),
    {
        proof {
            use_type_invariant(&*self);
            law_insert_then_lookup(self@, key@, value@);
        }
        let ghost old_pairs = self@;
        let found = self.find(key.as_str());
        let mut entries: Vec<(String, String)> = Vec::new();
        std::mem::swap(&mut entries, &mut self.entries);
        match found {
            Some(i) => {
                entries.set(i, (key, value));
            },
            None => {
                entries.push((key, value));
            },
        }
        assert(pairs_of(entries@) =~= pairs_insert(old_pairs, key@, value@));
        self.entries = entries;
    }

    /// The map obtained by inserting the pairs of `pairs` in order.
    pub fn from_pairs(pairs: Vec<(String, String)>) -> (r: HeaderMap)
        ensures
            r@ == pairs_from(pairs_of(pairs@)),
    {
        let ghost src = pairs_of(pairs@);
        let mut r = HeaderMap::new();
        for e in it: pairs.into_iter()
            invariant
                src == pairs_of(it.seq()),
                r@ == pairs_from(src.take(it.index() as int)),
        {
            let ghost i = it.index();
            let (k, v) = e;
            r.insert(k, v);
            assert(src.take(i + 1).drop_last() =~= src.take(i as int));
        }
        assert(src.take(src.len() as int) =~= src);
        r
    }
}

} // verus!
