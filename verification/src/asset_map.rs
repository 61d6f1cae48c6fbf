//! A small string-keyed map kept as a list of distinct keys.

use vstd::prelude::*;
use crate::text::str_eq;

verus! {

/// A map from string keys to values; the pairs hold distinct keys.
#[derive(Clone, Debug)]
pub struct AssetMap<V> {
    entries: Vec<(String, V)>,
}

/// Whether the pairs hold distinct keys.
pub open spec fn distinct_keys<V>(e: Seq<(String, V)>) -> bool {
    forall|i: int, j: int| 0 <= i < j < e.len() ==> e[i].0@ != e[j].0@
}

/// The map that a list of pairs with distinct keys stands for.
pub open spec fn map_of<V>(e: Seq<(String, V)>) -> Map<Seq<char>, V>
    decreases e.len(),
{
    if e.len() == 0 {
        Map::empty()
    } else {
        map_of(e.drop_last()).insert(e.last().0@, e.last().1)
    }
}

proof fn lemma_map_of<V>(e: Seq<(String, V)>)
    requires
        distinct_keys(e),
    ensures
        forall|k: Seq<char>|
            #![trigger map_of(e).contains_key(k)]
            map_of(e).contains_key(k) <==> exists|i: int| 0 <= i < e.len() && e[i].0@ == k,
        forall|i: int| 0 <= i < e.len() ==> #[trigger] map_of(e)[e[i].0@] == e[i].1,
    decreases e.len(),
{
    if e.len() > 0 {
        let t = e.drop_last();
        assert(distinct_keys(t));
        lemma_map_of(t);
        assert forall|k: Seq<char>| map_of(e).contains_key(k) <==> exists|i: int|
            0 <= i < e.len() && e[i].0@ == k by {
            if map_of(e).contains_key(k) {
                if k == e.last().0@ {
                    assert(e[e.len() - 1].0@ == k);
                } else {
                    assert(map_of(t).contains_key(k));
                    let i = choose|i: int| 0 <= i < t.len() && t[i].0@ == k;
                    assert(e[i] == t[i]);
                    assert(0 <= i < e.len() && e[i].0@ == k);
                }
            }
            if exists|i: int| 0 <= i < e.len() && e[i].0@ == k {
                let i = choose|i: int| 0 <= i < e.len() && e[i].0@ == k;
                if i < t.len() {
                    assert(t[i] == e[i]);
                    assert(0 <= i < t.len() && t[i].0@ == k);
                    assert(map_of(t).contains_key(k));
                } else {
                    assert(k == e.last().0@);
                }
            }
        }
        assert forall|i: int| 0 <= i < e.len() implies #[trigger] map_of(e)[e[i].0@] == e[i].1 by {
            if i < t.len() {
                assert(t[i] == e[i]);
                assert(e[i].0@ != e[e.len() - 1].0@);
                assert(map_of(t)[t[i].0@] == t[i].1);
                assert(map_of(e) == map_of(t).insert(e.last().0@, e.last().1));
            } else {
                assert(i == e.len() - 1);
            }
        }
    }
}

proof fn lemma_map_of_remove<V>(e: Seq<(String, V)>, i: int)
    requires
        distinct_keys(e),
        0 <= i < e.len(),
    ensures
        distinct_keys(e.remove(i)),
        map_of(e.remove(i)) == map_of(e).remove(e[i].0@),
{
    let r = e.remove(i);
    assert(distinct_keys(r)) by {
        assert forall|a: int, b: int| 0 <= a < b < r.len() implies r[a].0@ != r[b].0@ by {
            let ea = if a < i { a } else { a + 1 };
            let eb = if b < i { b } else { b + 1 };
            assert(r[a] == e[ea]);
            assert(r[b] == e[eb]);
        }
    }
    lemma_map_of(e);
    lemma_map_of(r);
    assert forall|k: Seq<char>| #[trigger] map_of(r).contains_key(k) == map_of(e).remove(
        e[i].0@,
    ).contains_key(k) by {
        if map_of(r).contains_key(k) {
            let a = choose|a: int| 0 <= a < r.len() && r[a].0@ == k;
            let ea = if a < i { a } else { a + 1 };
            assert(r[a] == e[ea]);
        }
        if map_of(e).remove(e[i].0@).contains_key(k) {
            let b = choose|b: int| 0 <= b < e.len() && e[b].0@ == k;
            assert(b != i);
            let rb = if b < i { b } else { b - 1 };
            assert(r[rb] == e[b]);
        }
    }
    assert forall|k: Seq<char>| #[trigger] map_of(r).contains_key(k) implies map_of(r)[k] == map_of(
        e,
    ).remove(e[i].0@)[k] by {
        let a = choose|a: int| 0 <= a < r.len() && r[a].0@ == k;
        let ea = if a < i { a } else { a + 1 };
        assert(r[a] == e[ea]);
        assert(map_of(r)[r[a].0@] == r[a].1);
        assert(map_of(e)[e[ea].0@] == e[ea].1);
    }
    assert(map_of(r) =~= map_of(e).remove(e[i].0@));
}

impl<V> AssetMap<V> {
    /// Well-formed: the pairs hold distinct keys.
    pub closed spec fn wf(&self) -> bool {
        distinct_keys(self.entries@)
    }

    /// The map this value stands for.
    pub closed spec fn view_map(&self) -> Map<Seq<char>, V> {
        map_of(self.entries@)
    }

    /// The empty map.
    pub fn new() -> (r: Self)
        ensures
            r.wf(),
            r.view_map() == Map::<Seq<char>, V>::empty(),
    {
        AssetMap { entries: Vec::new() }
    }

    fn position(&self, key: &str) -> (r: Option<usize>)
        requires
            self.wf(),
        ensures
            match r {
                Some(i) => i < self.entries@.len() && self.entries@[i as int].0@ == key@,
                None => !self.view_map().contains_key(key@),
            },
    {
        proof {
            lemma_map_of(self.entries@);
        }
        let mut i: usize = 0;
        while i < self.entries.len()
            invariant
                i <= self.entries@.len(),
                forall|j: int| 0 <= j < i ==> self.entries@[j].0@ != key@,
            decreases self.entries@.len() - i,
        {
            if str_eq(self.entries[i].0.as_str(), key) {
                return Some(i);
            }
            i = i + 1;
        }
        None
    }

    /// The value stored under `key`, if any.
    pub fn get(&self, key: &str) -> (r: Option<&V>)
        requires
            self.wf(),
        ensures
            match r {
                Some(v) => self.view_map().contains_key(key@) && self.view_map()[key@] == *v,
                None => !self.view_map().contains_key(key@),
            },
    {
        proof {
            lemma_map_of(self.entries@);
        }
        match self.position(key) {
            Some(i) => {
                assert(self.view_map()[self.entries@[i as int].0@] == self.entries@[i as int].1);
                Some(&self.entries[i].1)
            },
            None => None,
        }
    }

    /// Whether `key` is stored.
    pub fn contains_key(&self, key: &str) -> (r: bool)
        requires
            self.wf(),
        ensures
            r == self.view_map().contains_key(key@),
    {
        proof {
            lemma_map_of(self.entries@);
        }
        self.position(key).is_some()
    }

    /// Removes `key`, giving back its value.
    pub fn remove(&mut self, key: &str) -> (r: Option<V>)
        requires
            old(self).wf(),
        ensures
            final(self).wf(),
            final(self).view_map() == old(self).view_map().remove(key@),
            match r {
                Some(v) => old(self).view_map().contains_key(key@) && old(self).view_map()[key@]
                    == v,
                None => !old(self).view_map().contains_key(key@),
            },
    {
        proof {
            lemma_map_of(self.entries@);
        }
        match self.position(key) {
            Some(i) => {
                let ghost e = self.entries@;
                proof {
                    lemma_map_of_remove(e, i as int);
                }
                let (_, v) = self.entries.remove(i);
                assert(self.entries@ == e.remove(i as int));
                Some(v)
            },
            None => {
                assert(old(self).view_map().remove(key@) =~= old(self).view_map());
                None
            },
        }
    }

    /// The stored pairs, one per key, in no particular order.
    pub fn pairs(&self) -> (r: &[(String, V)])
        requires
            self.wf(),
        ensures
            distinct_keys(r@),
            map_of(r@) == self.view_map(),
    {
        self.entries.as_slice()
    }

    /// Stores `value` under `key`, replacing any earlier value.
    pub fn insert(&mut self, key: String, value: V)
        requires
            old(self).wf(),
        ensures
            final(self).wf(),
            final(self).view_map() == old(self).view_map().insert(key@, value),
    {
        let _ = self.remove(key.as_str());
        let ghost e = self.entries@;
        proof {
            lemma_map_of(e);
        }
        let ghost k = key@;
        self.entries.push((key, value));
        proof {
            let n = self.entries@;
            assert(n.drop_last() =~= e);
            assert forall|a: int, b: int| 0 <= a < b < n.len() implies n[a].0@ != n[b].0@ by {
                if b == n.len() - 1 {
                    assert(n[a] == e[a]);
                    assert(map_of(e).contains_key(e[a].0@));
                } else {
                    assert(n[a] == e[a]);
                    assert(n[b] == e[b]);
                }
            }
            assert(map_of(n) == map_of(e).insert(k, value));
            assert(map_of(e).insert(k, value) =~= old(self).view_map().insert(k, value));
        }
    }
}

} // verus!
