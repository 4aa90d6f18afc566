//! A small insertion-ordered mapping from strings to values, used for plugin
//! options, metric tags and status fields. Every key occurs once; a later
//! insertion under an existing key replaces the value and keeps the place.

use vstd::prelude::*;

verus! {

/// The mapping that a sequence of pairs denotes when later pairs win.
pub open spec fn map_of<V>(pairs: Seq<(Seq<char>, V)>) -> Map<Seq<char>, V>
    decreases pairs.len(),
{
    if pairs.len() == 0 {
        Map::empty()
    } else {
        map_of(pairs.drop_last()).insert(pairs.last().0, pairs.last().1)
    }
}

/// No two pairs share a key.
pub open spec fn distinct_keys<V>(pairs: Seq<(Seq<char>, V)>) -> bool {
    forall|i: int, j: int|
        0 <= i < pairs.len() && 0 <= j < pairs.len() && i != j ==> (#[trigger] pairs[i]).0 != (
        #[trigger] pairs[j]).0
}

/// Some pair of `pairs` has the key `key`.
pub open spec fn has_key<V>(pairs: Seq<(Seq<char>, V)>, key: Seq<char>) -> bool {
    exists|i: int| 0 <= i < pairs.len() && (#[trigger] pairs[i]).0 == key
}

/// The keys of `map_of(pairs)` are the keys of the pairs.
pub proof fn lemma_map_of_domain<V>(pairs: Seq<(Seq<char>, V)>, key: Seq<char>)
    ensures
        map_of(pairs).contains_key(key) <==> has_key(pairs, key),
    decreases pairs.len(),
{
    if pairs.len() > 0 {
        let front = pairs.drop_last();
        lemma_map_of_domain(front, key);
        if has_key(pairs, key) {
            let i = choose|i: int| 0 <= i < pairs.len() && (#[trigger] pairs[i]).0 == key;
            if i < front.len() {
                assert(front[i] == pairs[i]);
            }
        }
        if has_key(front, key) {
            let i = choose|i: int| 0 <= i < front.len() && (#[trigger] front[i]).0 == key;
            assert(pairs[i] == front[i]);
        }
        if pairs.last().0 == key {
            assert(pairs[pairs.len() - 1].0 == key);
        }
    }
}

/// With distinct keys, each pair's key maps to that pair's value.
pub proof fn lemma_map_of_value<V>(pairs: Seq<(Seq<char>, V)>, i: int)
    requires
        distinct_keys(pairs),
        0 <= i < pairs.len(),
    ensures
        map_of(pairs).contains_key(pairs[i].0),
        map_of(pairs)[pairs[i].0] == pairs[i].1,
    decreases pairs.len(),
{
    let front = pairs.drop_last();
    if i < pairs.len() - 1 {
        assert(distinct_keys(front)) by {
            assert forall|a: int, b: int|
                0 <= a < front.len() && 0 <= b < front.len() && a != b implies (
            #[trigger] front[a]).0 != (#[trigger] front[b]).0 by {
                assert(front[a] == pairs[a]);
                assert(front[b] == pairs[b]);
            }
        }
        lemma_map_of_value(front, i);
        assert(front[i] == pairs[i]);
        assert(pairs[i].0 != pairs[pairs.len() - 1].0);
    }
}

/// Appending a pair inserts it into the mapping.
pub proof fn lemma_map_of_push<V>(pairs: Seq<(Seq<char>, V)>, key: Seq<char>, value: V)
    ensures
        map_of(pairs.push((key, value))) == map_of(pairs).insert(key, value),
{
    let extended = pairs.push((key, value));
    assert(extended.drop_last() =~= pairs);
}

/// Replacing the value of the pair at `i` inserts the new value under its key.
pub proof fn lemma_map_of_update<V>(pairs: Seq<(Seq<char>, V)>, i: int, value: V)
    requires
        distinct_keys(pairs),
        0 <= i < pairs.len(),
    ensures
        map_of(pairs.update(i, (pairs[i].0, value))) == map_of(pairs).insert(pairs[i].0, value),
        distinct_keys(pairs.update(i, (pairs[i].0, value))),
    decreases pairs.len(),
{
    let key = pairs[i].0;
    let updated = pairs.update(i, (key, value));
    let front = pairs.drop_last();
    assert(distinct_keys(updated)) by {
        assert forall|a: int, b: int|
            0 <= a < updated.len() && 0 <= b < updated.len() && a != b implies (
        #[trigger] updated[a]).0 != (#[trigger] updated[b]).0 by {
            assert(updated[a].0 == pairs[a].0);
            assert(updated[b].0 == pairs[b].0);
        }
    }
    if i == pairs.len() - 1 {
        assert(updated.drop_last() =~= front);
        assert(map_of(updated) =~= map_of(pairs).insert(key, value));
    } else {
        assert(distinct_keys(front)) by {
            assert forall|a: int, b: int|
                0 <= a < front.len() && 0 <= b < front.len() && a != b implies (
            #[trigger] front[a]).0 != (#[trigger] front[b]).0 by {
                assert(front[a] == pairs[a]);
                assert(front[b] == pairs[b]);
            }
        }
        assert(front[i] == pairs[i]);
        lemma_map_of_update(front, i, value);
        assert(updated.drop_last() =~= front.update(i, (key, value)));
        assert(updated.last() == pairs.last());
        assert(pairs[i].0 != pairs[pairs.len() - 1].0);
        assert(map_of(updated) =~= map_of(pairs).insert(key, value));
    }
}

/// An insertion-ordered mapping from strings to values of type `V`.
#[derive(Debug)]
pub struct Dict<V> {
    entries: Vec<(String, V)>,
}

impl<V> Dict<V> {
    /// The entries in insertion order, each key by its characters.
    pub closed spec fn pairs(&self) -> Seq<(Seq<char>, V)> {
        self.entries@.map_values(|e: (String, V)| (e.0@, e.1))
    }

    /// The mapping itself.
    pub open spec fn view(&self) -> Map<Seq<char>, V> {
        map_of(self.pairs())
    }

    #[verifier::type_invariant]
    spec fn keys_are_distinct(&self) -> bool {
        distinct_keys(self.pairs())
    }

    /// An empty mapping.
    pub fn new() -> (r: Self)
        ensures
            r.pairs() == Seq::<(Seq<char>, V)>::empty(),
            r@ == Map::<Seq<char>, V>::empty(),
    {
        let r = Dict { entries: Vec::new() };
        assert(r.pairs() =~= Seq::<(Seq<char>, V)>::empty());
        r
    }

    /// Number of entries.
    pub fn len(&self) -> (n: usize)
        ensures
            n == self.pairs().len(),
            distinct_keys(self.pairs()),
    {
        proof {
            use_type_invariant(self);
        }
        self.entries.len()
    }

    /// The key of the `i`-th entry in insertion order.
    pub fn key_at(&self, i: usize) -> (k: &String)
        requires
            i < self.pairs().len(),
        ensures
            k@ == self.pairs()[i as int].0,
            self@.contains_key(k@),
    {
        proof {
            use_type_invariant(self);
            lemma_map_of_value(self.pairs(), i as int);
        }
        &self.entries[i].0
    }

    /// The value of the `i`-th entry in insertion order.
    pub fn value_at(&self, i: usize) -> (v: &V)
        requires
            i < self.pairs().len(),
        ensures
            *v == self.pairs()[i as int].1,
            self@.contains_key(self.pairs()[i as int].0),
            *v == self@[self.pairs()[i as int].0],
    {
        proof {
            use_type_invariant(self);
            lemma_map_of_value(self.pairs(), i as int);
        }
        &self.entries[i].1
    }

    /// Position of `key` among the entries, if it is present.
    pub fn position(&self, key: &String) -> (r: Option<usize>)
        ensures
            match r {
                Some(i) => i < self.pairs().len() && self.pairs()[i as int].0 == key@,
                None => !self@.contains_key(key@),
            },
            r is Some <==> self@.contains_key(key@),
    {
        let n = self.entries.len();
        let mut i: usize = 0;
        while i < n
            invariant
                n == self.entries@.len(),
                i <= n,
                forall|j: int| 0 <= j < i ==> (#[trigger] self.pairs()[j]).0 != key@,
            decreases n - i,
        {
            if self.entries[i].0 == *key {
                proof {
                    assert(self.pairs()[i as int].0 == key@);
                    lemma_map_of_domain(self.pairs(), key@);
                }
                return Some(i);
            }
            i = i + 1;
        }
        proof {
            lemma_map_of_domain(self.pairs(), key@);
        }
        None
    }

    /// The value stored under `key`, if there is one.
    pub fn get(&self, key: &String) -> (r: Option<&V>)
        ensures
            match r {
                Some(v) => self@.contains_key(key@) && *v == self@[key@],
                None => !self@.contains_key(key@),
            },
    {
        match self.position(key) {
            Some(i) => Some(self.value_at(i)),
            None => None,
        }
    }

    /// Whether `key` is present.
    pub fn contains_key(&self, key: &String) -> (r: bool)
        ensures
            r == self@.contains_key(key@),
    {
        self.position(key).is_some()
    }

    /// Stores `value` under `key`. An existing entry keeps its place and gets
    /// the new value; a new key is appended.
    pub fn insert(&mut self, key: String, value: V)
        ensures
            final(self)@ == old(self)@.insert(key@, value),
            old(self)@.contains_key(key@) ==> final(self).pairs().len() == old(self).pairs().len(),
            !old(self)@.contains_key(key@) ==> final(self).pairs() == old(self).pairs().push(
                (key@, value),
            ),
    {
        proof {
            use_type_invariant(&*self);
        }
        let found = self.position(&key);
        let ghost before = self.pairs();
        let mut entries: Vec<(String, V)> = Vec::new();
        std::mem::swap(&mut self.entries, &mut entries);
        let ghost pairs_of = |v: Seq<(String, V)>| v.map_values(|e: (String, V)| (e.0@, e.1));
        assert(pairs_of(entries@) == before);
        match found {
            Some(i) => {
                proof {
                    lemma_map_of_update(before, i as int, value);
                }
                entries.set(i, (key, value));
                assert(pairs_of(entries@) =~= before.update(i as int, (key@, value)));
            },
            None => {
                proof {
                    lemma_map_of_push(before, key@, value);
                    lemma_map_of_domain(before, key@);
                }
                entries.push((key, value));
                let ghost after = pairs_of(entries@);
                assert(after =~= before.push((key@, value)));
                assert(distinct_keys(after)) by {
                    assert forall|a: int, b: int|
                        0 <= a < after.len() && 0 <= b < after.len() && a != b implies (
                    #[trigger] after[a]).0 != (#[trigger] after[b]).0 by {
                        if a < before.len() {
                            assert(after[a] == before[a]);
                        }
                        if b < before.len() {
                            assert(after[b] == before[b]);
                        }
                    }
                }
            },
        }
        self.entries = entries;
    }
}

impl Dict<String> {
    /// Stores every entry of `other`, in its order. Where both have a key,
    /// the value of `other` replaces the one held.
    pub fn extend(&mut self, other: &Dict<String>)
        ensures
            final(self)@ == old(self)@.union_prefer_right(other@),
    {
        let n = other.len();
        let mut i: usize = 0;
        assert(other.pairs().take(0) =~= Seq::<(Seq<char>, String)>::empty());
        assert(self@ =~= old(self)@.union_prefer_right(map_of(other.pairs().take(0))));
        while i < n
            invariant
                n == other.pairs().len(),
                i <= n,
                self@ == old(self)@.union_prefer_right(map_of(other.pairs().take(i as int))),
            decreases n - i,
        {
            let key = other.key_at(i).clone();
            let value = other.value_at(i).clone();
            proof {
                let head = other.pairs().take(i as int);
                let next = other.pairs().take(i + 1);
                assert(next.drop_last() =~= head);
                assert(next.last() == other.pairs()[i as int]);
                let base = old(self)@;
                assert(base.union_prefer_right(map_of(next)) =~= base.union_prefer_right(
                    map_of(head),
                ).insert(key@, value));
            }
            self.insert(key, value);
            i = i + 1;
        }
        assert(other.pairs().take(n as int) =~= other.pairs());
    }
}

impl<V: Clone> Clone for Dict<V> {
    /// A copy with the same keys in the same order, each value a clone of
    /// the value held under that key.
    fn clone(&self) -> (r: Self)
        ensures
            r.pairs().len() == self.pairs().len(),
            forall|i: int|
                0 <= i < r.pairs().len() ==> (#[trigger] r.pairs()[i]).0 == self.pairs()[i].0,
            forall|i: int|
                0 <= i < r.pairs().len() ==> cloned(self.pairs()[i].1, (#[trigger] r.pairs()[i]).1),
    {
        proof {
            use_type_invariant(self);
        }
        let n = self.entries.len();
        let mut entries: Vec<(String, V)> = Vec::new();
        let mut i: usize = 0;
        while i < n
            invariant
                n == self.entries@.len(),
                i <= n,
                entries@.len() == i,
                forall|j: int| 0 <= j < i ==> (#[trigger] entries@[j]).0@ == self.entries@[j].0@,
                forall|j: int|
                    0 <= j < i ==> cloned(self.entries@[j].1, (#[trigger] entries@[j]).1),
            decreases n - i,
        {
            let key = self.entries[i].0.clone();
            let value = self.entries[i].1.clone();
            entries.push((key, value));
            i = i + 1;
        }
        proof {
            let copied = entries@.map_values(|e: (String, V)| (e.0@, e.1));
            let own = self.pairs();
            assert forall|a: int, b: int|
                0 <= a < copied.len() && 0 <= b < copied.len() && a != b implies (
            #[trigger] copied[a]).0 != (#[trigger] copied[b]).0 by {
                assert(copied[a].0 == own[a].0);
                assert(copied[b].0 == own[b].0);
            }
        }
        let r = Dict { entries };
        assert(r.pairs().len() == self.pairs().len());
        assert forall|a: int| 0 <= a < r.pairs().len() implies (#[trigger] r.pairs()[a]).0
            == self.pairs()[a].0 by {
            assert(r.entries@[a].0@ == self.entries@[a].0@);
        }
        assert forall|a: int| 0 <= a < r.pairs().len() implies cloned(
            self.pairs()[a].1,
            (#[trigger] r.pairs()[a]).1,
        ) by {
            assert(cloned(self.entries@[a].1, r.entries@[a].1));
        }
        r
    }
}

/// A clone of a mapping to strings is the same mapping: the same keys in the
/// same order, each with the same text.
pub proof fn lemma_clone_of_strings(held: Dict<String>, copy: Dict<String>)
    requires
        copy.pairs().len() == held.pairs().len(),
        forall|i: int|
            0 <= i < copy.pairs().len() ==> (#[trigger] copy.pairs()[i]).0 == held.pairs()[i].0,
        forall|i: int|
            0 <= i < copy.pairs().len() ==> cloned(
                held.pairs()[i].1,
                (#[trigger] copy.pairs()[i]).1,
            ),
    ensures
        copy.pairs() == held.pairs(),
        copy@ == held@,
{
    assert forall|i: int| 0 <= i < copy.pairs().len() implies copy.pairs()[i]
        == held.pairs()[i] by {
        assert(cloned(held.pairs()[i].1, copy.pairs()[i].1));
    }
    assert(copy.pairs() =~= held.pairs());
}

} // verus!
