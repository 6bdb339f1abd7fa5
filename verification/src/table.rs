use crate::text::views;
use vstd::prelude::*;

verus! {

/// No two pairs carry the same key.
pub open spec fn distinct_keys<V>(pairs: Seq<(String, V)>) -> bool {
    forall|i: int, j: int|
        0 <= i < pairs.len() && 0 <= j < pairs.len() && i != j ==> (#[trigger] pairs[i]).0@ != (
        #[trigger] pairs[j]).0@
}

/// Whether some pair carries `key`.
pub open spec fn has_key<V>(pairs: Seq<(String, V)>, key: Seq<char>) -> bool {
    exists|i: int| 0 <= i < pairs.len() && (#[trigger] pairs[i]).0@ == key
}

/// The place of a pair that carries `key`.
pub open spec fn place_of<V>(pairs: Seq<(String, V)>, key: Seq<char>) -> int {
    choose|i: int| 0 <= i < pairs.len() && (#[trigger] pairs[i]).0@ == key
}

/// The map that a list of pairs stands for: each key that occurs, with the
/// value beside it.
pub open spec fn pairs_map<V>(pairs: Seq<(String, V)>) -> Map<Seq<char>, V> {
    Map::new(|k: Seq<char>| has_key(pairs, k), |k: Seq<char>| pairs[place_of(pairs, k)].1)
}

/// With distinct keys each pair is found under its key.
pub proof fn lemma_pairs_map_at<V>(pairs: Seq<(String, V)>, i: int)
    requires
        distinct_keys(pairs),
        0 <= i < pairs.len(),
    ensures
        pairs_map(pairs).contains_key(pairs[i].0@),
        pairs_map(pairs)[pairs[i].0@] == pairs[i].1,
{
    let k = pairs[i].0@;
    assert(has_key(pairs, k));
    let j = place_of(pairs, k);
    assert(j == i);
}

/// A pair with a new key, put at the end, is an `insert` into the map.
pub proof fn lemma_pairs_map_push<V>(pairs: Seq<(String, V)>, key: String, value: V)
    requires
        distinct_keys(pairs),
        !has_key(pairs, key@),
    ensures
        distinct_keys(pairs.push((key, value))),
        pairs_map(pairs.push((key, value))) == pairs_map(pairs).insert(key@, value),
{
    let after = pairs.push((key, value));
    assert forall|i: int, j: int|
        0 <= i < after.len() && 0 <= j < after.len() && i != j implies (#[trigger] after[i]).0@ != (
    #[trigger] after[j]).0@ by {
        if i < pairs.len() {
            assert(after[i] == pairs[i]);
        }
        if j < pairs.len() {
            assert(after[j] == pairs[j]);
        }
    }
    assert forall|k: Seq<char>| has_key(after, k) <==> (k == key@ || has_key(pairs, k)) by {
        if has_key(after, k) {
            let i = place_of(after, k);
            if i < pairs.len() {
                assert(after[i] == pairs[i]);
            }
        }
        if k == key@ {
            assert(after[pairs.len() as int].0@ == k);
        }
        if has_key(pairs, k) {
            let i = place_of(pairs, k);
            assert(after[i] == pairs[i]);
        }
    }
    assert forall|k: Seq<char>| has_key(after, k) implies #[trigger] pairs_map(after)[k]
        == pairs_map(pairs).insert(key@, value)[k] by {
        if k == key@ {
            lemma_pairs_map_at(after, pairs.len() as int);
        } else {
            let i = place_of(pairs, k);
            assert(after[i] == pairs[i]);
            lemma_pairs_map_at(after, i);
            lemma_pairs_map_at(pairs, i);
        }
    }
    assert(pairs_map(after) =~= pairs_map(pairs).insert(key@, value));
}

/// Taking a pair out takes its key out of the map.
pub proof fn lemma_pairs_map_remove<V>(pairs: Seq<(String, V)>, i: int)
    requires
        distinct_keys(pairs),
        0 <= i < pairs.len(),
    ensures
        distinct_keys(pairs.remove(i)),
        !has_key(pairs.remove(i), pairs[i].0@),
        pairs_map(pairs.remove(i)) == pairs_map(pairs).remove(pairs[i].0@),
{
    let after = pairs.remove(i);
    let gone = pairs[i].0@;
    assert forall|a: int| 0 <= a < after.len() implies #[trigger] after[a] == pairs[if a < i {
        a
    } else {
        a + 1
    }] by {}
    assert forall|a: int, b: int|
        0 <= a < after.len() && 0 <= b < after.len() && a != b implies (#[trigger] after[a]).0@ != (
    #[trigger] after[b]).0@ by {
        let a0 = if a < i { a } else { a + 1 };
        let b0 = if b < i { b } else { b + 1 };
        assert(after[a] == pairs[a0]);
        assert(after[b] == pairs[b0]);
    }
    assert forall|k: Seq<char>| has_key(after, k) <==> (k != gone && has_key(pairs, k)) by {
        if has_key(after, k) {
            let a = place_of(after, k);
            let a0 = if a < i { a } else { a + 1 };
            assert(after[a] == pairs[a0]);
            assert(pairs[a0].0@ == k);
        }
        if k != gone && has_key(pairs, k) {
            let p = place_of(pairs, k);
            let a = if p < i { p } else { p - 1 };
            assert(after[a] == pairs[p]);
        }
    }
    assert forall|k: Seq<char>| has_key(after, k) implies #[trigger] pairs_map(after)[k]
        == pairs_map(pairs).remove(gone)[k] by {
        let a = place_of(after, k);
        let a0 = if a < i { a } else { a + 1 };
        assert(after[a] == pairs[a0]);
        lemma_pairs_map_at(after, a);
        lemma_pairs_map_at(pairs, a0);
    }
    assert(pairs_map(after) =~= pairs_map(pairs).remove(gone));
}

/// A table from text keys to values: at most one value under each key.
/// It is a list of pairs and not a `HashMap<String, V>`, because vstd gives
/// `String` no model as a hash key, so that nothing could be proved of what
/// such a map holds.
#[derive(Debug)]
pub struct KeyedTable<V> {
    entries: Vec<(String, V)>,
}

impl<V> View for KeyedTable<V> {
    type V = Map<Seq<char>, V>;

    closed spec fn view(&self) -> Map<Seq<char>, V> {
        pairs_map(self.entries@)
    }
}

impl<V> KeyedTable<V> {
    #[verifier::type_invariant]
    spec fn keys_are_distinct(&self) -> bool {
        distinct_keys(self.entries@)
    }

    /// The keys in the order in which the table holds them.
    pub closed spec fn key_order(&self) -> Seq<Seq<char>> {
        self.entries@.map_values(|p: (String, V)| p.0@)
    }

    /// An empty table.
    pub fn new() -> (r: Self)
        ensures
            r@ == Map::<Seq<char>, V>::empty(),
            r.key_order() == Seq::<Seq<char>>::empty(),
    {
        let r = KeyedTable { entries: Vec::new() };
        assert(r@ =~= Map::<Seq<char>, V>::empty());
        assert(r.key_order() =~= Seq::<Seq<char>>::empty());
        r
    }

    /// Where `key` stands, if it occurs.
    fn position(&self, key: &str) -> (r: Option<usize>)
        ensures
            match r {
                Some(i) => i < self.entries.len() && self.entries@[i as int].0@ == key@,
                None => !has_key(self.entries@, key@),
            },
    {
        let wanted = String::from_str(key);
        let mut i: usize = 0;
        while i < self.entries.len()
            invariant
                i <= self.entries.len(),
                wanted@ == key@,
                forall|j: int| 0 <= j < i ==> (#[trigger] self.entries@[j]).0@ != key@,
            decreases self.entries.len() - i,
        {
            if self.entries[i].0 == wanted {
                return Some(i);
            }
            i += 1;
        }
        None
    }

    /// Whether a value stands under `key`.
    pub fn contains_key(&self, key: &str) -> (r: bool)
        ensures
            r == self@.contains_key(key@),
    {
        self.position(key).is_some()
    }

    /// The value under `key`.
    pub fn get(&self, key: &str) -> (r: Option<&V>)
        ensures
            match r {
                Some(v) => self@.contains_key(key@) && *v == self@[key@],
                None => !self@.contains_key(key@),
            },
    {
        match self.position(key) {
            Some(i) => {
                proof {
                    use_type_invariant(self);
                    lemma_pairs_map_at(self.entries@, i as int);
                }
                Some(&self.entries[i].1)
            },
            None => None,
        }
    }

    /// Puts `value` under `key` and hands back what stood there before.
    pub fn insert(&mut self, key: String, value: V) -> (r: Option<V>)
        ensures
            final(self)@ == old(self)@.insert(key@, value),
            match r {
                Some(v) => old(self)@.contains_key(key@) && v == old(self)@[key@],
                None => !old(self)@.contains_key(key@),
            },
    {
        proof {
            use_type_invariant(&*self);
        }
        let found = self.position(key.as_str());
        let mut entries: Vec<(String, V)> = Vec::new();
        std::mem::swap(&mut self.entries, &mut entries);
        let before = match found {
            Some(i) => {
                proof {
                    lemma_pairs_map_at(entries@, i as int);
                    lemma_pairs_map_remove(entries@, i as int);
                }
                let pair = entries.remove(i);
                Some(pair.1)
            },
            None => None,
        };
        proof {
            lemma_pairs_map_push(entries@, key, value);
            assert(old(self)@.remove(key@).insert(key@, value) =~= old(self)@.insert(key@, value));
        }
        entries.push((key, value));
        self.entries = entries;
        before
    }

    /// Takes out the value under `key`, if there is one.
    pub fn remove(&mut self, key: &str) -> (r: Option<V>)
        ensures
            final(self)@ == old(self)@.remove(key@),
            match r {
                Some(v) => old(self)@.contains_key(key@) && v == old(self)@[key@],
                None => !old(self)@.contains_key(key@),
            },
    {
        proof {
            use_type_invariant(&*self);
        }
        match self.position(key) {
            Some(i) => {
                let mut entries: Vec<(String, V)> = Vec::new();
                std::mem::swap(&mut self.entries, &mut entries);
                proof {
                    lemma_pairs_map_at(entries@, i as int);
                    lemma_pairs_map_remove(entries@, i as int);
                }
                let pair = entries.remove(i);
                self.entries = entries;
                Some(pair.1)
            },
            None => {
                assert(old(self)@.remove(key@) =~= old(self)@);
                None
            },
        }
    }

    /// Empties the table and hands back every pair it held.
    pub fn drain(&mut self) -> (r: Vec<(String, V)>)
        ensures
            final(self)@ == Map::<Seq<char>, V>::empty(),
            distinct_keys(r@),
            pairs_map(r@) == old(self)@,
    {
        proof {
            use_type_invariant(&*self);
        }
        let mut taken: Vec<(String, V)> = Vec::new();
        std::mem::swap(&mut self.entries, &mut taken);
        assert(self@ =~= Map::<Seq<char>, V>::empty());
        taken
    }

    /// The keys of the table, each once.
    pub fn keys(&self) -> (r: Vec<String>)
        ensures
            views(r@) == self.key_order(),
            views(r@).no_duplicates(),
            views(r@).to_set() == self@.dom(),
    {
        proof {
            use_type_invariant(self);
        }
        let mut out: Vec<String> = Vec::new();
        let mut i: usize = 0;
        while i < self.entries.len()
            invariant
                i <= self.entries.len(),
                out.len() == i,
                forall|j: int| 0 <= j < i ==> (#[trigger] out@[j])@ == self.entries@[j].0@,
            decreases self.entries.len() - i,
        {
            out.push(self.entries[i].0.clone());
            i += 1;
        }
        proof {
            let got = views(out@);
            assert(got =~= self.key_order());
            assert forall|a: int, b: int| 0 <= a < got.len() && 0 <= b < got.len() && a != b implies got[a] != got[b] by {
                assert(got[a] == self.entries@[a].0@);
                assert(got[b] == self.entries@[b].0@);
            }
            assert forall|k: Seq<char>| got.to_set().contains(k) <==> self@.dom().contains(k) by {
                if got.to_set().contains(k) {
                    let a = choose|a: int| 0 <= a < got.len() && got[a] == k;
                    assert(self.entries@[a].0@ == k);
                }
                if self@.dom().contains(k) {
                    let a = place_of(self.entries@, k);
                    assert(got[a] == k);
                }
            }
            assert(got.to_set() =~= self@.dom());
        }
        out
    }
}

} // verus!
