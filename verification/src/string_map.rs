//! A small map from string keys to string values (environment variables,
//! HTTP headers): each key at most once, inserting an existing key replaces
//! its value.

use vstd::prelude::*;
use crate::text::str_eq;

verus! {

/// Where key `k` sits in `es`, if anywhere (the last such entry).
pub open spec fn find_key(es: Seq<(Seq<char>, Seq<char>)>, k: Seq<char>) -> Option<int>
    decreases es.len(),
{
    if es.len() == 0 {
        None
    } else if es.last().0 == k {
        Some(es.len() - 1)
    } else {
        find_key(es.drop_last(), k)
    }
}

/// The value stored under `k`.
pub open spec fn lookup(es: Seq<(Seq<char>, Seq<char>)>, k: Seq<char>) -> Option<Seq<char>> {
    match find_key(es, k) {
        Some(i) => Some(es[i].1),
        None => None,
    }
}

/// `es` with `k` set to `v`: the entry replaced in place if `k` is there,
/// appended otherwise.
pub open spec fn upsert(
    es: Seq<(Seq<char>, Seq<char>)>,
    k: Seq<char>,
    v: Seq<char>,
) -> Seq<(Seq<char>, Seq<char>)> {
    match find_key(es, k) {
        Some(i) => es.update(i, (k, v)),
        None => es.push((k, v)),
    }
}

/// No key occurs twice.
pub open spec fn keys_unique(es: Seq<(Seq<char>, Seq<char>)>) -> bool {
    forall|i: int, j: int| 0 <= i < j < es.len() ==> es[i].0 != es[j].0
}

pub proof fn lemma_find_key_props(es: Seq<(Seq<char>, Seq<char>)>, k: Seq<char>)
    ensures
        find_key(es, k) matches Some(i) ==> 0 <= i < es.len() && es[i].0 == k && forall|j: int|
            i < j < es.len() ==> es[j].0 != k,
        find_key(es, k) is None ==> forall|j: int| 0 <= j < es.len() ==> es[j].0 != k,
    decreases es.len(),
{
    if es.len() > 0 && es.last().0 != k {
        lemma_find_key_props(es.drop_last(), k);
        assert forall|j: int| 0 <= j < es.len() - 1 implies es.drop_last()[j] == es[j] by {}
    }
}

/// With unique keys, any entry holding `k` is the one `find_key` finds.
pub proof fn lemma_find_key_unique(es: Seq<(Seq<char>, Seq<char>)>, k: Seq<char>, i: int)
    requires
        keys_unique(es),
        0 <= i < es.len(),
        es[i].0 == k,
    ensures
        find_key(es, k) == Some(i),
{
    lemma_find_key_props(es, k);
    if let Some(j) = find_key(es, k) {
        if j < i {
            assert(es[j].0 != es[i].0);
        }
    }
}

/// Setting a key keeps the keys unique, makes the key read back as the value
/// just set, and leaves every other key as it was.
pub proof fn lemma_upsert(es: Seq<(Seq<char>, Seq<char>)>, k: Seq<char>, v: Seq<char>)
    requires
        keys_unique(es),
    ensures
        keys_unique(upsert(es, k, v)),
        lookup(upsert(es, k, v), k) == Some(v),
        forall|o: Seq<char>| o != k ==> lookup(upsert(es, k, v), o) == lookup(es, o),
{
    lemma_find_key_props(es, k);
    let r = upsert(es, k, v);
    match find_key(es, k) {
        Some(i) => {
            assert(r[i].0 == k);
            lemma_find_key_unique(r, k, i);
            assert forall|o: Seq<char>| o != k implies lookup(r, o) == lookup(es, o) by {
                lemma_find_key_props(es, o);
                lemma_find_key_props(r, o);
                if let Some(j) = find_key(es, o) {
                    assert(r[j].0 == o);
                    lemma_find_key_unique(r, o, j);
                }
            }
        },
        None => {
            assert(r[es.len() as int].0 == k);
            lemma_find_key_unique(r, k, es.len() as int);
            assert forall|o: Seq<char>| o != k implies lookup(r, o) == lookup(es, o) by {
                lemma_find_key_props(es, o);
                lemma_find_key_props(r, o);
                if let Some(j) = find_key(es, o) {
                    assert(r[j].0 == o);
                    lemma_find_key_unique(r, o, j);
                }
            }
        },
    }
}

/// A map of string keys to string values. Its view is its entries in the
/// order their keys were first set.
#[derive(Debug, PartialEq, Eq)]
pub struct StringMap {
    keys: Vec<String>,
    values: Vec<String>,
}

impl View for StringMap {
    type V = Seq<(Seq<char>, Seq<char>)>;

    closed spec fn view(&self) -> Seq<(Seq<char>, Seq<char>)> {
        Seq::new(self.keys@.len(), |i: int| (self.keys@[i]@, self.values@[i]@))
    }
}

impl Clone for StringMap {
    /// A copy holding the same entries.
    fn clone(&self) -> (m: StringMap)
        ensures
            m@ == self@,
    {
        proof { use_type_invariant(self); }
        let m = StringMap { keys: self.keys.clone(), values: self.values.clone() };
        assert(m.keys@ =~= self.keys@);
        assert(m.values@ =~= self.values@);
        assert(m@ =~= self@);
        m
    }
}

impl Default for StringMap {
    fn default() -> (m: StringMap)
        ensures
            m@ == Seq::<(Seq<char>, Seq<char>)>::empty(),
            m.wf(),
    {
        StringMap::new()
    }
}

impl StringMap {
    /// Keys and values pair up, and no key occurs twice. Every map keeps
    /// this at all times.
    #[verifier::type_invariant]
    pub closed spec fn wf(&self) -> bool {
        &&& self.keys@.len() == self.values@.len()
        &&& keys_unique(self@)
    }

    pub fn new() -> (m: StringMap)
        ensures
            m@ == Seq::<(Seq<char>, Seq<char>)>::empty(),
            m.wf(),
    {
        let m = StringMap { keys: Vec::new(), values: Vec::new() };
        assert(m@ =~= Seq::<(Seq<char>, Seq<char>)>::empty());
        m
    }

    fn index_of(&self, key: &str) -> (r: Option<usize>)
        ensures
            r matches Some(i) ==> find_key(self@, key@) == Some(i as int) && i < self@.len(),
            r is None ==> find_key(self@, key@) is None,
    {
        proof { use_type_invariant(self); }
        let mut i: usize = 0;
        while i < self.keys.len()
            invariant
                i <= self.keys.len() == self.values.len(),
                keys_unique(self@),
                self@.len() == self.keys.len(),
                forall|j: int| 0 <= j < i ==> self@[j].0 != key@,
            decreases self.keys.len() - i,
        {
            if str_eq(self.keys[i].as_str(), key) {
                proof {
                    lemma_find_key_unique(self@, key@, i as int);
                }
                return Some(i);
            }
            i += 1;
        }
        proof {
            lemma_find_key_props(self@, key@);
        }
        None
    }

    /// Set `key` to `value`, replacing an earlier value of `key`.
    pub fn insert(&mut self, key: String, value: String)
        ensures
            final(self)@ == upsert(old(self)@, key@, value@),
            final(self).wf(),
    {
        proof { use_type_invariant(&*self); }
        let found = self.index_of(key.as_str());
        let ghost before = self@;
        let mut taken = StringMap::new();
        std::mem::swap(self, &mut taken);
        proof { use_type_invariant(&taken); }
        assert(taken@ == before);
        let StringMap { mut keys, mut values } = taken;
        proof { lemma_upsert(before, key@, value@); }
        match found {
            Some(i) => {
                values.set(i, value);
                proof {
                    lemma_find_key_props(before, key@);
                    assert(Seq::new(keys@.len(), |j: int| (keys@[j]@, values@[j]@)) =~= before.update(
                        i as int,
                        (key@, value@),
                    ));
                }
                let m = StringMap { keys, values };
                *self = m;
            },
            None => {
                keys.push(key);
                values.push(value);
                assert(Seq::new(keys@.len(), |j: int| (keys@[j]@, values@[j]@)) =~= before.push((key@, value@)));
                let m = StringMap { keys, values };
                *self = m;
            },
        }
    }

    /// The value stored under `key`.
    pub fn get(&self, key: &str) -> (r: Option<&String>)
        ensures
            r matches Some(v) ==> lookup(self@, key@) == Some(v@),
            r is None ==> lookup(self@, key@) is None,
    {
        proof { use_type_invariant(self); }
        match self.index_of(key) {
            Some(i) => Some(&self.values[i]),
            None => None,
        }
    }

    pub fn len(&self) -> (n: usize)
        ensures
            n == self@.len(),
    {
        self.keys.len()
    }

    pub fn is_empty(&self) -> (b: bool)
        ensures
            b == (self@.len() == 0),
    {
        self.keys.len() == 0
    }

    /// The `i`-th entry, as `(key, value)`.
    pub fn entry(&self, i: usize) -> (r: (&String, &String))
        requires
            i < self@.len(),
        ensures
            r.0@ == self@[i as int].0,
            r.1@ == self@[i as int].1,
    {
        proof { use_type_invariant(self); }
        (&self.keys[i], &self.values[i])
    }
}

} // verus!
