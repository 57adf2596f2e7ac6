//! A map keyed by strings that remembers the order of first insertion.

use vstd::prelude::*;

verus! {

/// No key occurs twice among the pairs.
pub open spec fn keys_unique<V>(s: Seq<(String, V)>) -> bool {
    forall|i: int, j: int| 0 <= i < j < s.len() ==> s[i].0@ != s[j].0@
}

/// The map that a list of pairs denotes; a later pair wins over an earlier one.
pub open spec fn assoc<V>(s: Seq<(String, V)>) -> Map<Seq<char>, V>
    decreases s.len(),
{
    if s.len() == 0 {
        Map::empty()
    } else {
        assoc(s.drop_last()).insert(s.last().0@, s.last().1)
    }
}

/// A key is in `assoc(s)` exactly when some pair carries it.
pub proof fn lemma_assoc_dom<V>(s: Seq<(String, V)>, k: Seq<char>)
    ensures
        assoc(s).contains_key(k) <==> exists|i: int| 0 <= i < s.len() && s[i].0@ == k,
    decreases s.len(),
{
    if s.len() > 0 {
        lemma_assoc_dom(s.drop_last(), k);
        if assoc(s.drop_last()).contains_key(k) {
            let i = choose|i: int| 0 <= i < s.len() - 1 && s.drop_last()[i].0@ == k;
            assert(s[i].0@ == k);
        }
        if exists|i: int| 0 <= i < s.len() && s[i].0@ == k {
            let i = choose|i: int| 0 <= i < s.len() && s[i].0@ == k;
            if i < s.len() - 1 {
                assert(s.drop_last()[i].0@ == k);
            }
        }
    }
}

/// With unique keys, the value under the key of pair `i` is that pair's value.
pub proof fn lemma_assoc_index<V>(s: Seq<(String, V)>, i: int)
    requires
        keys_unique(s),
        0 <= i < s.len(),
    ensures
        assoc(s).contains_key(s[i].0@),
        assoc(s)[s[i].0@] == s[i].1,
    decreases s.len(),
{
    if i < s.len() - 1 {
        lemma_assoc_index(s.drop_last(), i);
    }
}

/// With unique keys, the map has as many keys as there are pairs.
pub proof fn lemma_assoc_len<V>(s: Seq<(String, V)>)
    requires
        keys_unique(s),
    ensures
        assoc(s).dom().finite(),
        assoc(s).len() == s.len(),
    decreases s.len(),
{
    if s.len() > 0 {
        lemma_assoc_len(s.drop_last());
        lemma_assoc_dom(s.drop_last(), s.last().0@);
        if assoc(s.drop_last()).contains_key(s.last().0@) {
            let i = choose|i: int| 0 <= i < s.len() - 1 && s.drop_last()[i].0@ == s.last().0@;
            assert(s[i].0@ == s[s.len() - 1].0@);
        }
    }
}

/// Replacing pair `i` by a pair with the same key is an insert into the map.
pub proof fn lemma_assoc_update<V>(s: Seq<(String, V)>, i: int, p: (String, V))
    requires
        keys_unique(s),
        0 <= i < s.len(),
        s[i].0@ == p.0@,
    ensures
        assoc(s.update(i, p)) == assoc(s).insert(p.0@, p.1),
    decreases s.len(),
{
    let t = s.update(i, p);
    if i == s.len() - 1 {
        assert(t.drop_last() =~= s.drop_last());
        assert(assoc(t) =~= assoc(s).insert(p.0@, p.1));
    } else {
        assert(t.drop_last() =~= s.drop_last().update(i, p));
        lemma_assoc_update(s.drop_last(), i, p);
        assert(s.last().0@ != p.0@);
        assert(assoc(t) =~= assoc(s).insert(p.0@, p.1));
    }
}

/// A string-keyed map as a list of pairs with unique keys, in order of first insertion.
pub struct StrMap<V> {
    pairs: Vec<(String, V)>,
}

impl<V> StrMap<V> {
    #[verifier::type_invariant]
    spec fn inv(self) -> bool {
        keys_unique(self.pairs@)
    }

    /// The pairs in order of first insertion.
    pub closed spec fn entries(self) -> Seq<(String, V)> {
        self.pairs@
    }

    /// The map the pairs denote.
    pub open spec fn map(self) -> Map<Seq<char>, V> {
        assoc(self.entries())
    }

    /// An empty map.
    pub fn new() -> (m: Self)
        ensures
            m.entries() == Seq::<(String, V)>::empty(),
            m.map() == Map::<Seq<char>, V>::empty(),
    {
        StrMap { pairs: Vec::new() }
    }

    /// The pairs, in order of first insertion.
    pub fn pairs(&self) -> (r: &Vec<(String, V)>)
        ensures
            r@ == self.entries(),
            keys_unique(self.entries()),
    {
        proof {
            use_type_invariant(self);
        }
        &self.pairs
    }

    /// The number of keys.
    pub fn len(&self) -> (n: usize)
        ensures
            n == self.entries().len(),
            n == self.map().len(),
            self.map().dom().finite(),
    {
        proof {
            use_type_invariant(self);
            lemma_assoc_len(self.pairs@);
        }
        self.pairs.len()
    }

    /// Position of `key` among the pairs.
    fn position(&self, key: &String) -> (r: Option<usize>)
        ensures
            match r {
                Some(i) => i < self.entries().len() && self.entries()[i as int].0@ == key@,
                None => forall|i: int|
                    0 <= i < self.entries().len() ==> self.entries()[i].0@ != key@,
            },
    {
        let mut i: usize = 0;
        while i < self.pairs.len()
            invariant
                i <= self.pairs@.len(),
                forall|j: int| 0 <= j < i ==> self.pairs@[j].0@ != key@,
            decreases self.pairs@.len() - i,
        {
            if self.pairs[i].0 == *key {
                return Some(i);
            }
            i += 1;
        }
        None
    }

    /// The value stored under `key`, if any.
    pub fn get(&self, key: &str) -> (r: Option<&V>)
        ensures
            match r {
                Some(v) => self.map().contains_key(key@) && *v == self.map()[key@],
                None => !self.map().contains_key(key@),
            },
    {
        proof {
            use_type_invariant(self);
        }
        let k = key.to_owned();
        match self.position(&k) {
            Some(i) => {
                proof {
                    lemma_assoc_index(self.pairs@, i as int);
                }
                Some(&self.pairs[i].1)
            },
            None => {
                proof {
                    lemma_assoc_dom(self.pairs@, key@);
                }
                None
            },
        }
    }

    /// Stores `value` under `key`, replacing any earlier value; a new key goes last.
    pub fn insert(&mut self, key: String, value: V)
        ensures
            final(self).map() == old(self).map().insert(key@, value),
            old(self).map().contains_key(key@) ==> exists|i: int|
                0 <= i < old(self).entries().len() && old(self).entries()[i].0@ == key@
                    && final(self).entries() == old(self).entries().update(i, (key, value)),
            !old(self).map().contains_key(key@) ==> final(self).entries() == old(
                self,
            ).entries().push((key, value)),
    {
        proof {
            use_type_invariant(&*self);
            lemma_assoc_dom(self.pairs@, key@);
        }
        let pos = self.position(&key);
        let mut pairs: Vec<(String, V)> = Vec::new();
        std::mem::swap(&mut pairs, &mut self.pairs);
        match pos {
            Some(i) => {
                proof {
                    lemma_assoc_update(pairs@, i as int, (key, value));
                }
                pairs.set(i, (key, value));
            },
            None => {
                assert(pairs@.push((key, value)).drop_last() =~= pairs@);
                pairs.push((key, value));
            },
        }
        self.pairs = pairs;
    }
}

} // verus!
