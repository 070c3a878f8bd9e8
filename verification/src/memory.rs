//! A backend that keeps its entries in memory.

use crate::backend::{consistent, Backend};
use vstd::prelude::*;

verus! {

/// The mapping that a list of key-value pairs stands for.
pub open spec fn map_of(pairs: Seq<(Seq<char>, Seq<char>)>) -> Map<Seq<char>, Seq<char>> {
    Map::new(
        |k: Seq<char>| exists|i: int| 0 <= i < pairs.len() && pairs[i].0 == k,
        |k: Seq<char>| pairs[choose|i: int| 0 <= i < pairs.len() && pairs[i].0 == k].1,
    )
}

/// Whether no key occurs twice in `pairs`.
pub open spec fn distinct_keys(pairs: Seq<(Seq<char>, Seq<char>)>) -> bool {
    forall|i: int, j: int| 0 <= i < j < pairs.len() ==> pairs[i].0 != pairs[j].0
}

proof fn lemma_map_of_at(pairs: Seq<(Seq<char>, Seq<char>)>, i: int)
    requires
        distinct_keys(pairs),
        0 <= i < pairs.len(),
    ensures
        map_of(pairs).contains_key(pairs[i].0),
        map_of(pairs)[pairs[i].0] == pairs[i].1,
{
    let k = pairs[i].0;
    let j = choose|j: int| 0 <= j < pairs.len() && pairs[j].0 == k;
    assert(i == j);
}

proof fn lemma_map_of_push(pairs: Seq<(Seq<char>, Seq<char>)>, k: Seq<char>, v: Seq<char>)
    requires
        distinct_keys(pairs),
        !map_of(pairs).contains_key(k),
    ensures
        distinct_keys(pairs.push((k, v))),
        map_of(pairs.push((k, v))) == map_of(pairs).insert(k, v),
{
    let after = pairs.push((k, v));
    assert forall|i: int, j: int| 0 <= i < j < after.len() implies after[i].0 != after[j].0 by {
        if j == pairs.len() {
            assert(pairs[i].0 == after[i].0);
        }
    }
    assert forall|x: Seq<char>| map_of(after).contains_key(x) <==> map_of(pairs).insert(
        k,
        v,
    ).contains_key(x) by {
        if map_of(after).contains_key(x) {
            let i = choose|i: int| 0 <= i < after.len() && after[i].0 == x;
            if i < pairs.len() {
                assert(pairs[i].0 == x);
            }
        }
        if map_of(pairs).contains_key(x) {
            let i = choose|i: int| 0 <= i < pairs.len() && pairs[i].0 == x;
            assert(after[i].0 == x);
        }
        if x == k {
            assert(after[pairs.len() as int].0 == k);
        }
    }
    assert forall|x: Seq<char>| map_of(after).contains_key(x) implies map_of(after)[x] == map_of(
        pairs,
    ).insert(k, v)[x] by {
        let i = choose|i: int| 0 <= i < after.len() && after[i].0 == x;
        lemma_map_of_at(after, i);
        if i < pairs.len() {
            assert(pairs[i].0 == x);
            lemma_map_of_at(pairs, i);
        }
    }
    assert(map_of(after) =~= map_of(pairs).insert(k, v));
}

proof fn lemma_map_of_update(pairs: Seq<(Seq<char>, Seq<char>)>, at: int, v: Seq<char>)
    requires
        distinct_keys(pairs),
        0 <= at < pairs.len(),
    ensures
        distinct_keys(pairs.update(at, (pairs[at].0, v))),
        map_of(pairs.update(at, (pairs[at].0, v))) == map_of(pairs).insert(pairs[at].0, v),
{
    let k = pairs[at].0;
    let after = pairs.update(at, (k, v));
    assert forall|i: int, j: int| 0 <= i < j < after.len() implies after[i].0 != after[j].0 by {
        assert(after[i].0 == pairs[i].0);
        assert(after[j].0 == pairs[j].0);
    }
    assert forall|x: Seq<char>| map_of(after).contains_key(x) <==> map_of(pairs).insert(
        k,
        v,
    ).contains_key(x) by {
        if map_of(after).contains_key(x) {
            let i = choose|i: int| 0 <= i < after.len() && after[i].0 == x;
            assert(pairs[i].0 == x);
        }
        if map_of(pairs).contains_key(x) {
            let i = choose|i: int| 0 <= i < pairs.len() && pairs[i].0 == x;
            assert(after[i].0 == x);
        }
        if x == k {
            assert(after[at].0 == k);
        }
    }
    assert forall|x: Seq<char>| map_of(after).contains_key(x) implies map_of(after)[x] == map_of(
        pairs,
    ).insert(k, v)[x] by {
        let i = choose|i: int| 0 <= i < after.len() && after[i].0 == x;
        lemma_map_of_at(after, i);
        assert(pairs[i].0 == x);
        lemma_map_of_at(pairs, i);
    }
    assert(map_of(after) =~= map_of(pairs).insert(k, v));
}

proof fn lemma_map_of_remove(pairs: Seq<(Seq<char>, Seq<char>)>, at: int)
    requires
        distinct_keys(pairs),
        0 <= at < pairs.len(),
    ensures
        distinct_keys(pairs.remove(at)),
        map_of(pairs.remove(at)) == map_of(pairs).remove(pairs[at].0),
{
    let k = pairs[at].0;
    let after = pairs.remove(at);
    assert forall|i: int| 0 <= i < after.len() implies after[i] == pairs[if i < at {
        i
    } else {
        i + 1
    }] by {}
    assert forall|i: int, j: int| 0 <= i < j < after.len() implies after[i].0 != after[j].0 by {
        assert(after[i] == pairs[if i < at { i } else { i + 1 }]);
        assert(after[j] == pairs[if j < at { j } else { j + 1 }]);
    }
    assert forall|x: Seq<char>| map_of(after).contains_key(x) <==> map_of(pairs).remove(
        k,
    ).contains_key(x) by {
        if map_of(after).contains_key(x) {
            let i = choose|i: int| 0 <= i < after.len() && after[i].0 == x;
            let p = if i < at { i } else { i + 1 };
            assert(pairs[p].0 == x);
        }
        if map_of(pairs).contains_key(x) && x != k {
            let i = choose|i: int| 0 <= i < pairs.len() && pairs[i].0 == x;
            let a = if i < at { i } else { i - 1 };
            assert(after[a].0 == x);
        }
    }
    assert forall|x: Seq<char>| map_of(after).contains_key(x) implies map_of(after)[x] == map_of(
        pairs,
    ).remove(k)[x] by {
        let i = choose|i: int| 0 <= i < after.len() && after[i].0 == x;
        lemma_map_of_at(after, i);
        let p = if i < at { i } else { i + 1 };
        assert(pairs[p].0 == x);
        lemma_map_of_at(pairs, p);
    }
    assert(map_of(after) =~= map_of(pairs).remove(k));
}

/// A backend that keeps its entries in memory, in the order in which their
/// keys were first set.  It never fails.
pub struct MemoryBackend {
    entries: Vec<(String, String)>,
}

impl MemoryBackend {
    /// The entries as pairs of key and value, in enumeration order.
    pub closed spec fn pairs(&self) -> Seq<(Seq<char>, Seq<char>)> {
        Seq::new(self.entries@.len(), |i: int| (self.entries@[i].0@, self.entries@[i].1@))
    }

    /// Creates a backend that holds nothing.
    pub fn new() -> (backend: MemoryBackend)
        ensures
            backend@ == Map::<Seq<char>, Seq<char>>::empty(),
            backend.keys() == Seq::<Seq<char>>::empty(),
            consistent(backend@, backend.keys()),
    {
        let backend = MemoryBackend { entries: Vec::new() };
        proof {
            backend.lemma_consistent();
        }
        assert(backend@ =~= Map::<Seq<char>, Seq<char>>::empty());
        assert(backend.keys() =~= Seq::<Seq<char>>::empty());
        backend
    }

    /// Returns the position of `key` among the entries.
    fn position(&self, key: &String) -> (r: Option<usize>)
        ensures
            r matches Some(i) ==> i < self.pairs().len() && self.pairs()[i as int].0 == key@,
            r is None ==> !map_of(self.pairs()).contains_key(key@),
    {
        let mut i: usize = 0;
        while i < self.entries.len()
            invariant
                i <= self.entries@.len(),
                self.pairs().len() == self.entries@.len(),
                forall|j: int| 0 <= j < i ==> self.pairs()[j].0 != key@,
            decreases self.entries@.len() - i,
        {
            if self.entries[i].0 == *key {
                return Some(i);
            }
            i += 1;
        }
        None
    }

    proof fn lemma_distinct(&self)
        requires
            consistent(self@, self.keys()),
        ensures
            distinct_keys(self.pairs()),
    {
        let pairs = self.pairs();
        let keys = self.keys();
        assert forall|i: int, j: int| 0 <= i < j < pairs.len() implies pairs[i].0 != pairs[j].0 by {
            assert(keys[i] == pairs[i].0);
            assert(keys[j] == pairs[j].0);
        }
    }

    proof fn lemma_consistent(&self)
        requires
            distinct_keys(self.pairs()),
        ensures
            consistent(self@, self.keys()),
    {
        let pairs = self.pairs();
        let keys = self.keys();
        assert forall|k: Seq<char>| self@.contains_key(k) <==> keys.contains(k) by {
            if self@.contains_key(k) {
                let i = choose|i: int| 0 <= i < pairs.len() && pairs[i].0 == k;
                assert(keys[i] == k);
            }
            if keys.contains(k) {
                let i = choose|i: int| 0 <= i < keys.len() && keys[i] == k;
                assert(pairs[i].0 == k);
            }
        }
    }
}

impl Backend for MemoryBackend {
    closed spec fn view(&self) -> Map<Seq<char>, Seq<char>> {
        map_of(self.pairs())
    }

    closed spec fn keys(&self) -> Seq<Seq<char>> {
        Seq::new(self.pairs().len(), |i: int| self.pairs()[i].0)
    }

    open spec fn faithful(&self) -> bool {
        true
    }

    open spec fn reliable(&self) -> bool {
        true
    }

    fn length(&self) -> (r: Result<usize, String>) {
        Ok(self.entries.len())
    }

    fn key(&self, index: usize) -> (r: Result<Option<String>, String>) {
        if index < self.entries.len() {
            Ok(Some(self.entries[index].0.clone()))
        } else {
            Ok(None)
        }
    }

    fn get(&self, key: &str) -> (r: Result<Option<String>, String>) {
        proof {
            self.lemma_distinct();
        }
        let wanted = key.to_owned();
        match self.position(&wanted) {
            Some(i) => {
                proof {
                    lemma_map_of_at(self.pairs(), i as int);
                }
                Ok(Some(self.entries[i].1.clone()))
            },
            None => Ok(None),
        }
    }

    fn set(&mut self, key: &str, value: &str) -> (r: Result<(), String>) {
        proof {
            self.lemma_distinct();
        }
        let wanted = key.to_owned();
        let ghost before = self.pairs();
        match self.position(&wanted) {
            Some(i) => {
                self.entries.set(i, (wanted, value.to_owned()));
                proof {
                    lemma_map_of_update(before, i as int, value@);
                    assert(self.pairs() =~= before.update(i as int, (key@, value@)));
                }
            },
            None => {
                self.entries.push((wanted, value.to_owned()));
                proof {
                    lemma_map_of_push(before, key@, value@);
                    assert(self.pairs() =~= before.push((key@, value@)));
                }
            },
        }
        proof {
            self.lemma_consistent();
        }
        Ok(())
    }

    fn delete(&mut self, key: &str) -> (r: Result<(), String>) {
        proof {
            self.lemma_distinct();
        }
        let wanted = key.to_owned();
        let ghost before = self.pairs();
        match self.position(&wanted) {
            Some(i) => {
                self.entries.remove(i);
                proof {
                    lemma_map_of_remove(before, i as int);
                    assert(self.pairs() =~= before.remove(i as int));
                }
            },
            None => {
                assert(self@ =~= self@.remove(key@));
            },
        }
        proof {
            self.lemma_consistent();
        }
        Ok(())
    }
}

} // verus!
