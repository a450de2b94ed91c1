//! A map from string keys to values, kept as a list of distinct keys.
use vstd::prelude::*;

verus! {

/// The list holds `k` as a key.
pub open spec fn has_key<V>(e: Seq<(String, V)>, k: Seq<char>) -> bool {
    exists|i: int| 0 <= i < e.len() && (#[trigger] e[i]).0@ == k
}

/// An index at which the list holds `k` (the only one, in a list of distinct keys).
pub open spec fn key_index<V>(e: Seq<(String, V)>, k: Seq<char>) -> int {
    choose|i: int| 0 <= i < e.len() && (#[trigger] e[i]).0@ == k
}

/// No key occurs twice.
pub open spec fn distinct_keys<V>(e: Seq<(String, V)>) -> bool {
    forall|i: int, j: int|
        0 <= i < e.len() && 0 <= j < e.len() && i != j ==> (#[trigger] e[i]).0@ != (
        #[trigger] e[j]).0@
}

/// The map that a list of distinct keys stands for.
pub open spec fn as_map<V>(e: Seq<(String, V)>) -> Map<Seq<char>, V> {
    Map::new(|k: Seq<char>| has_key(e, k), |k: Seq<char>| e[key_index(e, k)].1)
}

/// A map keyed by strings, held as a list of entries with distinct keys.
///
/// It stands in for `std::collections::HashMap<String, V>`: vstd specifies
/// `HashMap` only for key types that satisfy `obeys_key_model`, and it states
/// that for the primitive integer types and `bool`, not for `String`, so a
/// `HashMap` keyed by `String` would carry no usable contract here.
pub struct AssocList<V> {
    entries: Vec<(String, V)>,
}

impl<V> View for AssocList<V> {
    type V = Map<Seq<char>, V>;

    closed spec fn view(&self) -> Map<Seq<char>, V> {
        as_map(self.entries@)
    }
}

proof fn lemma_key_index<V>(e: Seq<(String, V)>, i: int)
    requires
        distinct_keys(e),
        0 <= i < e.len(),
    ensures
        has_key(e, e[i].0@),
        key_index(e, e[i].0@) == i,
        as_map(e).dom().contains(e[i].0@),
        as_map(e)[e[i].0@] == e[i].1,
{
    let k = e[i].0@;
    assert(has_key(e, k));
    let j = key_index(e, k);
    assert(e[j].0@ == k);
}

proof fn lemma_push_absent<V>(e: Seq<(String, V)>, key: String, value: V)
    requires
        distinct_keys(e),
        !has_key(e, key@),
    ensures
        distinct_keys(e.push((key, value))),
        as_map(e.push((key, value))) == as_map(e).insert(key@, value),
{
    let f = e.push((key, value));
    assert forall|i: int, j: int|
        0 <= i < f.len() && 0 <= j < f.len() && i != j implies (#[trigger] f[i]).0@ != (
        #[trigger] f[j]).0@ by {
        if i < e.len() && j < e.len() {
            assert(f[i] == e[i] && f[j] == e[j]);
        } else if i < e.len() {
            assert(f[i] == e[i]);
        } else if j < e.len() {
            assert(f[j] == e[j]);
        }
    }
    let m = as_map(e).insert(key@, value);
    assert forall|k: Seq<char>| #[trigger] as_map(f).dom().contains(k) == m.dom().contains(k) by {
        if has_key(f, k) {
            let i = choose|i: int| 0 <= i < f.len() && (#[trigger] f[i]).0@ == k;
            if i < e.len() {
                assert(f[i] == e[i]);
                assert(has_key(e, k));
            }
        }
        if has_key(e, k) {
            let i = choose|i: int| 0 <= i < e.len() && (#[trigger] e[i]).0@ == k;
            assert(f[i] == e[i]);
            assert(has_key(f, k));
        }
        if k == key@ {
            assert(f[e.len() as int] == (key, value));
            assert(has_key(f, k));
        }
    }
    assert forall|k: Seq<char>| #[trigger] as_map(f).dom().contains(k) implies as_map(f)[k]
        == m[k] by {
        let i = choose|i: int| 0 <= i < f.len() && (#[trigger] f[i]).0@ == k;
        lemma_key_index(f, i);
        if i < e.len() {
            assert(f[i] == e[i]);
            lemma_key_index(e, i);
        }
    }
    assert(as_map(f) =~= m);
}

proof fn lemma_remove_at<V>(e: Seq<(String, V)>, i: int)
    requires
        distinct_keys(e),
        0 <= i < e.len(),
    ensures
        distinct_keys(e.remove(i)),
        as_map(e.remove(i)) == as_map(e).remove(e[i].0@),
        !has_key(e.remove(i), e[i].0@),
{
    let f = e.remove(i);
    let key = e[i].0@;
    assert forall|a: int| 0 <= a < f.len() implies #[trigger] f[a] == e[if a < i {
        a
    } else {
        a + 1
    }] by {}
    assert forall|a: int, b: int|
        0 <= a < f.len() && 0 <= b < f.len() && a != b implies (#[trigger] f[a]).0@ != (
        #[trigger] f[b]).0@ by {
        let a2 = if a < i {
            a
        } else {
            a + 1
        };
        let b2 = if b < i {
            b
        } else {
            b + 1
        };
        assert(f[a] == e[a2] && f[b] == e[b2]);
    }
    assert(!has_key(f, key)) by {
        if has_key(f, key) {
            let a = choose|a: int| 0 <= a < f.len() && (#[trigger] f[a]).0@ == key;
            let a2 = if a < i {
                a
            } else {
                a + 1
            };
            assert(f[a] == e[a2]);
        }
    }
    let m = as_map(e).remove(key);
    assert forall|k: Seq<char>| #[trigger] as_map(f).dom().contains(k) == m.dom().contains(k) by {
        if has_key(f, k) {
            let a = choose|a: int| 0 <= a < f.len() && (#[trigger] f[a]).0@ == k;
            let a2 = if a < i {
                a
            } else {
                a + 1
            };
            assert(f[a] == e[a2]);
            assert(has_key(e, k));
        }
        if has_key(e, k) && k != key {
            let a2 = choose|a: int| 0 <= a < e.len() && (#[trigger] e[a]).0@ == k;
            let a = if a2 < i {
                a2
            } else {
                a2 - 1
            };
            assert(f[a] == e[a2]);
            assert(has_key(f, k));
        }
    }
    assert forall|k: Seq<char>| #[trigger] as_map(f).dom().contains(k) implies as_map(f)[k]
        == m[k] by {
        let a = choose|a: int| 0 <= a < f.len() && (#[trigger] f[a]).0@ == k;
        let a2 = if a < i {
            a
        } else {
            a + 1
        };
        lemma_key_index(f, a);
        assert(f[a] == e[a2]);
        lemma_key_index(e, a2);
    }
    assert(as_map(f) =~= m);
}

impl<V> AssocList<V> {
    /// Its keys are distinct.
    pub closed spec fn wf(&self) -> bool {
        distinct_keys(self.entries@)
    }

    /// An empty map.
    pub fn new() -> (r: Self)
        ensures
            r.wf(),
            r@ == Map::<Seq<char>, V>::empty(),
    {
        let r = AssocList { entries: Vec::new() };
        assert(r@ =~= Map::<Seq<char>, V>::empty());
        r
    }

    fn index_of(&self, key: &String) -> (r: Option<usize>)
        requires
            self.wf(),
        ensures
            r is Some <==> self@.dom().contains(key@),
            r matches Some(i) ==> i < self.entries@.len() && self.entries@[i as int].0@ == key@,
    {
        let mut i: usize = 0;
        while i < self.entries.len()
            invariant
                i <= self.entries@.len(),
                forall|j: int| 0 <= j < i ==> (#[trigger] self.entries@[j]).0@ != key@,
            decreases self.entries@.len() - i,
        {
            if self.entries[i].0 == *key {
                return Some(i);
            }
            i = i + 1;
        }
        None
    }

    /// Whether `key` is present.
    pub fn contains_key(&self, key: &String) -> (r: bool)
        requires
            self.wf(),
        ensures
            r == self@.dom().contains(key@),
    {
        self.index_of(key).is_some()
    }

    /// The value under `key`, if any.
    pub fn get(&self, key: &String) -> (r: Option<&V>)
        requires
            self.wf(),
        ensures
            r is Some == self@.dom().contains(key@),
            r matches Some(v) ==> *v == self@[key@],
    {
        match self.index_of(key) {
            Some(i) => {
                proof {
                    lemma_key_index(self.entries@, i as int);
                }
                Some(&self.entries[i].1)
            },
            None => None,
        }
    }

    /// Removes `key`, giving back its value if it was present.
    pub fn remove(&mut self, key: &String) -> (r: Option<V>)
        requires
            old(self).wf(),
        ensures
            final(self).wf(),
            final(self)@ == old(self)@.remove(key@),
            r is Some == old(self)@.dom().contains(key@),
            r matches Some(v) ==> v == old(self)@[key@],
    {
        match self.index_of(key) {
            Some(i) => {
                proof {
                    lemma_key_index(self.entries@, i as int);
                    lemma_remove_at(self.entries@, i as int);
                }
                let entry = self.entries.remove(i);
                Some(entry.1)
            },
            None => {
                assert(self@.remove(key@) =~= self@);
                None
            },
        }
    }

    /// Sets the value under `key`, replacing any earlier one.
    pub fn insert(&mut self, key: String, value: V)
        requires
            old(self).wf(),
        ensures
            final(self).wf(),
            final(self)@ == old(self)@.insert(key@, value),
    {
        let ghost before = self@;
        let _ = self.remove(&key);
        proof {
            assert(!self@.dom().contains(key@));
            assert(!has_key(self.entries@, key@));
            lemma_push_absent(self.entries@, key, value);
        }
        self.entries.push((key, value));
        assert(self@ =~= before.insert(key@, value));
    }
}

} // verus!
