//! A small map keyed by path text, kept as a list of distinct keys.
use vstd::prelude::*;

use crate::fs::{normalize_path, path_normal};
use crate::text::str_eq;

verus! {

/// The map a list of pairs gives when inserted in order.
pub open spec fn pairs_map<V>(pairs: Seq<(String, V)>) -> Map<Seq<char>, V>
    decreases pairs.len(),
{
    if pairs.len() == 0 {
        Map::empty()
    } else {
        pairs_map(pairs.drop_last()).insert(pairs.last().0@, pairs.last().1)
    }
}

/// A map from paths to values. Paths are keys as paths, not as text: each
/// is held in its normal form ([`path_normal`]), so `/a/b/` and `/a//b` are
/// one key.
#[derive(Debug)]
pub struct PathMap<V> {
    entries: Vec<(String, V)>,
}

impl<V> PathMap<V> {
    pub closed spec fn view(&self) -> Map<Seq<char>, V> {
        entries_map(self.entries@)
    }

    /// No key is held twice, and each is in normal form.
    pub closed spec fn wf(&self) -> bool {
        &&& distinct_paths(self.entries@)
        &&& normal_keys(self.entries@)
    }

    pub fn new() -> (r: Self)
        ensures
            r.wf(),
            r.view() == Map::<Seq<char>, V>::empty(),
    {
        let r = PathMap { entries: Vec::new() };
        assert(r.view() =~= Map::<Seq<char>, V>::empty());
        r
    }

    fn position(&self, key: &str) -> (r: Option<usize>)
        requires
            self.wf(),
        ensures
            match r {
                Some(i) => i < self.entries@.len() && self.entries@[i as int].0@ == key@,
                None => !self.view().contains_key(key@),
            },
    {
        let mut i: usize = 0;
        while i < self.entries.len()
            invariant
                i <= self.entries@.len(),
                forall|j: int| 0 <= j < i ==> #[trigger] self.entries@[j].0@ != key@,
            decreases self.entries.len() - i,
        {
            if str_eq(self.entries[i].0.as_str(), key) {
                return Some(i);
            }
            i += 1;
        }
        proof {
            if self.view().contains_key(key@) {
                let j = choose|j: int| 0 <= j < self.entries@.len() && #[trigger] self.entries@[j].0@ == key@;
                assert(self.entries@[j].0@ != key@);
            }
        }
        None
    }

    /// The value held for `key`.
    pub fn get(&self, key: &str) -> (r: Option<&V>)
        requires
            self.wf(),
        ensures
            self.view().contains_key(path_normal(key@)) ==> (r matches Some(v) && *v == self.view()[path_normal(
                key@,
            )]),
            !self.view().contains_key(path_normal(key@)) ==> r is None,
    {
        let k = normalize_path(key);
        match self.position(k.as_str()) {
            Some(i) => {
                proof {
                    lemma_entries_at(self.entries@, i as int);
                }
                Some(&self.entries[i].1)
            },
            None => None,
        }
    }

    /// Holds `value` for `key`, replacing what was held for it.
    pub fn insert(&mut self, key: String, value: V)
        requires
            old(self).wf(),
        ensures
            final(self).wf(),
            final(self).view() == old(self).view().insert(path_normal(key@), value),
    {
        let ghost s1 = self.entries@;
        let k = normalize_path(key.as_str());
        let ghost e = (k, value);
        match self.position(k.as_str()) {
            Some(i) => {
                self.entries.set(i, (k, value));
                proof {
                    lemma_entries_update(s1, i as int, e);
                    assert(normal_keys(self.entries@)) by {
                        assert forall|j: int| 0 <= j < self.entries@.len() implies path_normal(
                            #[trigger] self.entries@[j].0@,
                        ) == self.entries@[j].0@ by {
                            if j != i {
                                assert(self.entries@[j] == s1[j]);
                            }
                        }
                    }
                }
            },
            None => {
                self.entries.push((k, value));
                proof {
                    lemma_entries_push(s1, e);
                    assert(normal_keys(self.entries@)) by {
                        assert forall|j: int| 0 <= j < self.entries@.len() implies path_normal(
                            #[trigger] self.entries@[j].0@,
                        ) == self.entries@[j].0@ by {
                            if j < s1.len() {
                                assert(self.entries@[j] == s1[j]);
                            }
                        }
                    }
                }
            },
        }
    }

    /// Stops holding `key`; gives back what was held for it.
    pub fn remove(&mut self, key: &str) -> (r: Option<V>)
        requires
            old(self).wf(),
        ensures
            final(self).wf(),
            final(self).view() == old(self).view().remove(path_normal(key@)),
            old(self).view().contains_key(path_normal(key@)) ==> r == Some(old(self).view()[path_normal(key@)]),
            !old(self).view().contains_key(path_normal(key@)) ==> r is None,
    {
        let ghost s1 = self.entries@;
        let k = normalize_path(key);
        match self.position(k.as_str()) {
            Some(i) => {
                proof {
                    lemma_entries_at(s1, i as int);
                    lemma_entries_remove(s1, i as int);
                }
                let (_, v) = self.entries.remove(i);
                proof {
                    assert forall|j: int| 0 <= j < self.entries@.len() implies path_normal(
                        #[trigger] self.entries@[j].0@,
                    ) == self.entries@[j].0@ by {
                        if j < i {
                            assert(self.entries@[j] == s1[j]);
                        } else {
                            assert(self.entries@[j] == s1[j + 1]);
                        }
                    }
                }
                Some(v)
            },
            None => {
                assert(self.view() =~= self.view().remove(k@));
                None
            },
        }
    }

    /// The held pairs, each key once.
    pub fn entries(&self) -> (r: &Vec<(String, V)>)
        requires
            self.wf(),
        ensures
            distinct_paths(r@),
            normal_keys(r@),
            pairs_map(r@) == self.view(),
    {
        proof {
            lemma_pairs_map_distinct(self.entries@);
        }
        &self.entries
    }
}

/// The map held by a list of pairs in which each path occurs once.
pub open spec fn entries_map<V>(s: Seq<(String, V)>) -> Map<Seq<char>, V> {
    Map::new(
        |k: Seq<char>| exists|i: int| 0 <= i < s.len() && #[trigger] s[i].0@ == k,
        |k: Seq<char>| s[choose|i: int| 0 <= i < s.len() && #[trigger] s[i].0@ == k].1,
    )
}

/// Every key is in normal form.
pub open spec fn normal_keys<V>(s: Seq<(String, V)>) -> bool {
    forall|i: int| 0 <= i < s.len() ==> path_normal(#[trigger] s[i].0@) == s[i].0@
}

pub open spec fn distinct_paths<V>(s: Seq<(String, V)>) -> bool {
    forall|i: int, j: int| 0 <= i < j < s.len() ==> #[trigger] s[i].0@ != #[trigger] s[j].0@
}

pub proof fn lemma_entries_at<V>(s: Seq<(String, V)>, i: int)
    requires
        distinct_paths(s),
        0 <= i < s.len(),
    ensures
        entries_map(s).contains_key(s[i].0@),
        entries_map(s)[s[i].0@] == s[i].1,
{
    let k = s[i].0@;
    assert(entries_map(s).contains_key(k));
    let j = choose|j: int| 0 <= j < s.len() && #[trigger] s[j].0@ == k;
    if j < i {
        assert(s[j].0@ != s[i].0@);
    } else if j > i {
        assert(s[i].0@ != s[j].0@);
    }
}

pub proof fn lemma_entries_push<V>(s: Seq<(String, V)>, e: (String, V))
    requires
        distinct_paths(s),
        !entries_map(s).contains_key(e.0@),
    ensures
        distinct_paths(s.push(e)),
        entries_map(s.push(e)) == entries_map(s).insert(e.0@, e.1),
{
    let s2 = s.push(e);
    let n = s.len() as int;
    let k = e.0@;
    assert forall|a: int, b: int| 0 <= a < b < s2.len() implies #[trigger] s2[a].0@ != #[trigger] s2[b].0@ by {
        if b == n {
            if s[a].0@ == k {
                assert(entries_map(s).contains_key(k));
            }
        } else {
            assert(s[a].0@ != s[b].0@);
        }
    }
    assert forall|x: Seq<char>| #[trigger] entries_map(s2).contains_key(x) == entries_map(s).insert(k, e.1).contains_key(x) by {
        if exists|j: int| 0 <= j < s.len() && #[trigger] s[j].0@ == x {
            let j = choose|j: int| 0 <= j < s.len() && #[trigger] s[j].0@ == x;
            assert(s2[j] == s[j]);
        }
        if x == k {
            assert(s2[n].0@ == x);
        }
        if exists|j: int| 0 <= j < s2.len() && #[trigger] s2[j].0@ == x {
            let j = choose|j: int| 0 <= j < s2.len() && #[trigger] s2[j].0@ == x;
            if j < n {
                assert(s2[j] == s[j]);
            }
        }
    }
    assert forall|x: Seq<char>| #[trigger] entries_map(s2).contains_key(x) implies entries_map(s2)[x] == entries_map(s).insert(k, e.1)[x] by {
        let j = choose|j: int| 0 <= j < s2.len() && #[trigger] s2[j].0@ == x;
        lemma_entries_at(s2, j);
        if j < n {
            assert(s2[j] == s[j]);
            lemma_entries_at(s, j);
        }
    }
    assert(entries_map(s2) =~= entries_map(s).insert(k, e.1));
}

pub proof fn lemma_entries_update<V>(s: Seq<(String, V)>, i: int, e: (String, V))
    requires
        distinct_paths(s),
        0 <= i < s.len(),
        s[i].0@ == e.0@,
    ensures
        distinct_paths(s.update(i, e)),
        entries_map(s.update(i, e)) == entries_map(s).insert(e.0@, e.1),
{
    let s2 = s.update(i, e);
    let k = e.0@;
    assert forall|a: int, b: int| 0 <= a < b < s2.len() implies #[trigger] s2[a].0@ != #[trigger] s2[b].0@ by {
        assert(s2[a].0@ == s[a].0@);
        assert(s2[b].0@ == s[b].0@);
    }
    assert forall|x: Seq<char>| #[trigger] entries_map(s2).contains_key(x) == entries_map(s).insert(k, e.1).contains_key(x) by {
        if exists|j: int| 0 <= j < s.len() && #[trigger] s[j].0@ == x {
            let j = choose|j: int| 0 <= j < s.len() && #[trigger] s[j].0@ == x;
            assert(s2[j].0@ == x);
        }
        if x == k {
            assert(s2[i].0@ == x);
        }
        if exists|j: int| 0 <= j < s2.len() && #[trigger] s2[j].0@ == x {
            let j = choose|j: int| 0 <= j < s2.len() && #[trigger] s2[j].0@ == x;
            assert(s[j].0@ == x);
        }
    }
    assert forall|x: Seq<char>| #[trigger] entries_map(s2).contains_key(x) implies entries_map(s2)[x] == entries_map(s).insert(k, e.1)[x] by {
        let j = choose|j: int| 0 <= j < s2.len() && #[trigger] s2[j].0@ == x;
        lemma_entries_at(s2, j);
        if j != i {
            assert(s2[j] == s[j]);
            lemma_entries_at(s, j);
        }
    }
    assert(entries_map(s2) =~= entries_map(s).insert(k, e.1));
}

pub proof fn lemma_entries_remove<V>(s: Seq<(String, V)>, i: int)
    requires
        distinct_paths(s),
        0 <= i < s.len(),
    ensures
        distinct_paths(s.remove(i)),
        entries_map(s.remove(i)) == entries_map(s).remove(s[i].0@),
{
    let s2 = s.remove(i);
    let k = s[i].0@;
    assert forall|a: int, b: int| 0 <= a < b < s2.len() implies #[trigger] s2[a].0@ != #[trigger] s2[b].0@ by {
        let a1 = if a < i { a } else { a + 1 };
        let b1 = if b < i { b } else { b + 1 };
        assert(s2[a] == s[a1]);
        assert(s2[b] == s[b1]);
        assert(s[a1].0@ != s[b1].0@);
    }
    assert forall|x: Seq<char>| #[trigger] entries_map(s2).contains_key(x) == entries_map(s).remove(k).contains_key(x) by {
        if exists|j: int| 0 <= j < s.len() && #[trigger] s[j].0@ == x {
            let j = choose|j: int| 0 <= j < s.len() && #[trigger] s[j].0@ == x;
            if x != k {
                assert(j != i);
                let j2 = if j < i { j } else { j - 1 };
                assert(s2[j2] == s[j]);
            }
        }
        if exists|j: int| 0 <= j < s2.len() && #[trigger] s2[j].0@ == x {
            let j = choose|j: int| 0 <= j < s2.len() && #[trigger] s2[j].0@ == x;
            let j1 = if j < i { j } else { j + 1 };
            assert(s2[j] == s[j1]);
            if j1 < i {
                assert(s[j1].0@ != s[i].0@);
            } else {
                assert(s[i].0@ != s[j1].0@);
            }
        }
    }
    assert forall|x: Seq<char>| #[trigger] entries_map(s2).contains_key(x) implies entries_map(s2)[x] == entries_map(s).remove(k)[x] by {
        let j = choose|j: int| 0 <= j < s2.len() && #[trigger] s2[j].0@ == x;
        lemma_entries_at(s2, j);
        let j1 = if j < i { j } else { j + 1 };
        assert(s2[j] == s[j1]);
        lemma_entries_at(s, j1);
    }
    assert(entries_map(s2) =~= entries_map(s).remove(k));
}

pub proof fn lemma_pairs_map_distinct<V>(s: Seq<(String, V)>)
    requires
        distinct_paths(s),
    ensures
        pairs_map(s) == entries_map(s),
    decreases s.len(),
{
    if s.len() == 0 {
        assert(entries_map(s) =~= Map::<Seq<char>, V>::empty());
    } else {
        let t = s.drop_last();
        let n = t.len() as int;
        assert(distinct_paths(t)) by {
            assert forall|i: int, j: int| 0 <= i < j < t.len() implies #[trigger] t[i].0@ != #[trigger] t[j].0@ by {
                assert(s[i].0@ != s[j].0@);
            }
        }
        lemma_pairs_map_distinct(t);
        assert(s =~= t.push(s.last()));
        if entries_map(t).contains_key(s.last().0@) {
            let j = choose|j: int| 0 <= j < t.len() && #[trigger] t[j].0@ == s.last().0@;
            assert(s[j].0@ != s[n].0@);
        }
        lemma_entries_push(t, s.last());
    }
}

} // verus!
