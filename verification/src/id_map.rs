//! A map keyed by 128-bit identifiers, backed by a vector of entries with
//! pairwise-distinct keys. Its abstract value is a `Map<u128, V>`.

use vstd::prelude::*;

verus! {

/// The map described by a sequence of key/value entries; later entries win.
pub open spec fn entries_to_map<V>(s: Seq<(u128, V)>) -> Map<u128, V>
    decreases s.len(),
{
    if s.len() == 0 {
        Map::empty()
    } else {
        entries_to_map(s.drop_last()).insert(s.last().0, s.last().1)
    }
}

/// No key occurs twice in the entry sequence.
pub open spec fn distinct_keys<V>(s: Seq<(u128, V)>) -> bool {
    forall|i: int, j: int| 0 <= i < j < s.len() ==> s[i].0 != s[j].0
}

/// A key is present in the described map exactly when some entry holds it.
proof fn lemma_contains<V>(s: Seq<(u128, V)>, k: u128)
    ensures
        entries_to_map(s).contains_key(k) <==> exists|i: int| 0 <= i < s.len() && s[i].0 == k,
    decreases s.len(),
{
    if s.len() > 0 {
        lemma_contains(s.drop_last(), k);
        if s.last().0 == k {
            assert(s[s.len() - 1].0 == k);
        } else if entries_to_map(s).contains_key(k) {
            let i = choose|i: int| 0 <= i < s.drop_last().len() && s.drop_last()[i].0 == k;
            assert(s[i].0 == k);
        } else if exists|i: int| 0 <= i < s.len() && s[i].0 == k {
            let i = choose|i: int| 0 <= i < s.len() && s[i].0 == k;
            assert(s.drop_last()[i].0 == k);
        }
    }
}

/// With distinct keys, the entry holding a key gives that key's value.
proof fn lemma_value_at<V>(s: Seq<(u128, V)>, i: int)
    requires
        distinct_keys(s),
        0 <= i < s.len(),
    ensures
        entries_to_map(s).contains_key(s[i].0),
        entries_to_map(s)[s[i].0] == s[i].1,
    decreases s.len(),
{
    lemma_contains(s, s[i].0);
    if i < s.len() - 1 {
        assert(s.drop_last()[i] == s[i]);
        lemma_value_at(s.drop_last(), i);
        assert(s.last().0 != s[i].0);
    }
}

/// Appending an entry inserts its key/value pair into the described map.
proof fn lemma_push<V>(s: Seq<(u128, V)>, k: u128, v: V)
    ensures
        entries_to_map(s.push((k, v))) == entries_to_map(s).insert(k, v),
{
    assert(s.push((k, v)).drop_last() =~= s);
    assert(s.push((k, v)).last() == (k, v));
}

/// Removing the entry that holds a key removes that key from the described map.
proof fn lemma_remove<V>(s: Seq<(u128, V)>, i: int)
    requires
        distinct_keys(s),
        0 <= i < s.len(),
    ensures
        entries_to_map(s.remove(i)) == entries_to_map(s).remove(s[i].0),
    decreases s.len(),
{
    let k = s[i].0;
    if i == s.len() - 1 {
        assert(s.remove(i) =~= s.drop_last());
        lemma_contains(s.drop_last(), k);
        assert(forall|j: int| 0 <= j < s.drop_last().len() ==> s.drop_last()[j].0 != k);
        assert(entries_to_map(s.drop_last()).remove(k) =~= entries_to_map(s.drop_last()));
        assert(entries_to_map(s).remove(k) =~= entries_to_map(s.drop_last()).remove(k));
    } else {
        assert(s.remove(i).drop_last() =~= s.drop_last().remove(i));
        assert(s.remove(i).last() == s.last());
        lemma_remove(s.drop_last(), i);
        assert(s.drop_last()[i] == s[i]);
        assert(s.last().0 != k);
        assert(entries_to_map(s.remove(i)) == entries_to_map(s.drop_last()).remove(k).insert(
            s.last().0,
            s.last().1,
        ));
        assert(entries_to_map(s.drop_last()).remove(k).insert(s.last().0, s.last().1)
            =~= entries_to_map(s.drop_last()).insert(s.last().0, s.last().1).remove(k));
    }
}

/// A map from 128-bit identifiers to values.
pub struct IdMap<V> {
    entries: Vec<(u128, V)>,
}

impl<V> View for IdMap<V> {
    type V = Map<u128, V>;

    closed spec fn view(&self) -> Map<u128, V> {
        entries_to_map(self.entries@)
    }
}

impl<V> IdMap<V> {
    /// The internal entry list never repeats a key.
    pub closed spec fn wf(self) -> bool {
        distinct_keys(self.entries@)
    }

    pub fn new() -> (r: IdMap<V>)
        ensures
            r.wf(),
            r@ == Map::<u128, V>::empty(),
    {
        IdMap { entries: Vec::new() }
    }

    /// The position of the entry holding a key, if any.
    fn index_of(&self, k: u128) -> (r: Option<usize>)
        ensures
            match r {
                Some(i) => i < self.entries@.len() && self.entries@[i as int].0 == k,
                None => forall|i: int| 0 <= i < self.entries@.len() ==> self.entries@[i].0 != k,
            },
    {
        let n = self.entries.len();
        let mut i: usize = 0;
        while i < n
            invariant
                n == self.entries@.len(),
                i <= n,
                forall|j: int| 0 <= j < i ==> self.entries@[j].0 != k,
            decreases n - i,
        {
            if self.entries[i].0 == k {
                return Some(i);
            }
            i = i + 1;
        }
        None
    }

    pub fn contains_key(&self, k: u128) -> (r: bool)
        ensures
            r == self@.contains_key(k),
    {
        proof {
            lemma_contains(self.entries@, k);
        }
        self.index_of(k).is_some()
    }

    pub fn get(&self, k: u128) -> (r: Option<&V>)
        requires
            self.wf(),
        ensures
            match r {
                Some(v) => self@.contains_key(k) && *v == self@[k],
                None => !self@.contains_key(k),
            },
    {
        proof {
            lemma_contains(self.entries@, k);
        }
        match self.index_of(k) {
            Some(i) => {
                proof {
                    lemma_value_at(self.entries@, i as int);
                }
                Some(&self.entries[i].1)
            },
            None => None,
        }
    }

    pub fn insert(&mut self, k: u128, v: V)
        requires
            old(self).wf(),
        ensures
            final(self).wf(),
            final(self)@ == old(self)@.insert(k, v),
    {
        let ghost s0 = self.entries@;
        match self.index_of(k) {
            Some(i) => {
                self.entries.remove(i);
                proof {
                    lemma_remove(s0, i as int);
                    lemma_contains(s0.remove(i as int), k);
                }
                let ghost s1 = self.entries@;
                self.entries.push((k, v));
                proof {
                    lemma_push(s1, k, v);
                    assert(entries_to_map(s0).remove(k).insert(k, v) =~= entries_to_map(
                        s0,
                    ).insert(k, v));
                }
            },
            None => {
                self.entries.push((k, v));
                proof {
                    lemma_push(s0, k, v);
                }
            },
        }
    }

    /// Every key, each once, in entry order.
    pub fn keys(&self) -> (r: Vec<u128>)
        requires
            self.wf(),
        ensures
            forall|k: u128| #[trigger] r@.contains(k) <==> self@.contains_key(k),
            forall|i: int, j: int| 0 <= i < j < r@.len() ==> r@[i] != r@[j],
    {
        let n = self.entries.len();
        let mut out: Vec<u128> = Vec::new();
        let mut i: usize = 0;
        while i < n
            invariant
                self.wf(),
                n == self.entries@.len(),
                i <= n,
                out@.len() == i,
                forall|j: int| 0 <= j < i ==> out@[j] == self.entries@[j].0,
            decreases n - i,
        {
            out.push(self.entries[i].0);
            i = i + 1;
        }
        proof {
            lemma_contains(self.entries@, 0);
            assert forall|k: u128| #[trigger] out@.contains(k) implies self@.contains_key(k) by {
                let j = choose|j: int| 0 <= j < out@.len() && out@[j] == k;
                lemma_value_at(self.entries@, j);
            }
            assert forall|k: u128| self@.contains_key(k) implies #[trigger] out@.contains(k) by {
                lemma_contains(self.entries@, k);
                let j = choose|j: int|
                    0 <= j < self.entries@.len() && self.entries@[j].0 == k;
                assert(out@[j] == k);
            }
        }
        out
    }

    pub fn remove(&mut self, k: u128) -> (r: Option<V>)
        requires
            old(self).wf(),
        ensures
            final(self).wf(),
            final(self)@ == old(self)@.remove(k),
            r == if old(self)@.contains_key(k) {
                Some(old(self)@[k])
            } else {
                None::<V>
            },
    {
        let ghost s0 = self.entries@;
        proof {
            lemma_contains(s0, k);
        }
        match self.index_of(k) {
            Some(i) => {
                proof {
                    lemma_value_at(s0, i as int);
                    lemma_remove(s0, i as int);
                }
                let e = self.entries.remove(i);
                Some(e.1)
            },
            None => {
                proof {
                    assert(entries_to_map(s0).remove(k) =~= entries_to_map(s0));
                }
                None
            },
        }
    }
}

} // verus!
