use vstd::prelude::*;
use crate::text::str_eq;

verus! {

/// The map that a sequence of (key, value) pairs denotes: a later pair for a
/// key overrides an earlier one.
pub open spec fn pairs_to_map<V>(s: Seq<(String, V)>) -> Map<Seq<char>, V>
    decreases s.len(),
{
    if s.len() == 0 {
        Map::empty()
    } else {
        pairs_to_map(s.drop_last()).insert(s.last().0@, s.last().1)
    }
}

/// No key occurs twice.
pub open spec fn keys_unique<V>(s: Seq<(String, V)>) -> bool {
    forall|i: int, j: int| 0 <= i < s.len() && 0 <= j < s.len() && i != j ==> s[i].0@ != s[j].0@
}

/// The position of the pair whose key is `k`, if any (the last one).
pub open spec fn key_index<V>(s: Seq<(String, V)>, k: Seq<char>) -> int
    decreases s.len(),
{
    if s.len() == 0 {
        -1
    } else if s.last().0@ == k {
        s.len() - 1
    } else {
        key_index(s.drop_last(), k)
    }
}

pub proof fn lemma_key_index<V>(s: Seq<(String, V)>, k: Seq<char>)
    ensures
        -1 <= key_index(s, k) < s.len(),
        key_index(s, k) >= 0 ==> s[key_index(s, k)].0@ == k,
        key_index(s, k) == -1 <==> (forall|i: int| 0 <= i < s.len() ==> s[i].0@ != k),
        pairs_to_map(s).dom().contains(k) <==> key_index(s, k) >= 0,
        key_index(s, k) >= 0 ==> pairs_to_map(s)[k] == s[key_index(s, k)].1,
        key_index(s, k) >= 0 ==> (forall|i: int| key_index(s, k) < i < s.len() ==> s[i].0@ != k),
    decreases s.len(),
{
    if s.len() > 0 {
        lemma_key_index(s.drop_last(), k);
        if s.last().0@ != k {
            assert forall|i: int| 0 <= i < s.len() && s[i].0@ == k implies i < s.len() - 1 by {}
            assert forall|i: int| 0 <= i < s.drop_last().len() implies s.drop_last()[i] == s[i] by {}
        }
    }
}

/// With unique keys, the pair at position `i` gives the map's value for its key.
pub proof fn lemma_pair_in_map<V>(s: Seq<(String, V)>, i: int)
    requires
        keys_unique(s),
        0 <= i < s.len(),
    ensures
        pairs_to_map(s).dom().contains(s[i].0@),
        pairs_to_map(s)[s[i].0@] == s[i].1,
        key_index(s, s[i].0@) == i,
{
    lemma_key_index(s, s[i].0@);
}

/// With unique keys, the map has as many keys as there are pairs.
pub proof fn lemma_map_len<V>(s: Seq<(String, V)>)
    requires
        keys_unique(s),
    ensures
        pairs_to_map(s).dom().finite(),
        pairs_to_map(s).dom().len() == s.len(),
    decreases s.len(),
{
    if s.len() > 0 {
        let t = s.drop_last();
        assert(keys_unique(t));
        lemma_map_len(t);
        lemma_key_index(t, s.last().0@);
        assert(!pairs_to_map(t).dom().contains(s.last().0@));
    }
}

pub proof fn lemma_map_finite<V>(s: Seq<(String, V)>)
    ensures
        pairs_to_map(s).dom().finite(),
    decreases s.len(),
{
    if s.len() > 0 {
        lemma_map_finite(s.drop_last());
    }
}

/// Replacing the value of an existing key updates the map at that key.
pub proof fn lemma_update_value<V>(s: Seq<(String, V)>, i: int, k: String, v: V)
    requires
        keys_unique(s),
        0 <= i < s.len(),
        s[i].0@ == k@,
    ensures
        keys_unique(s.update(i, (k, v))),
        pairs_to_map(s.update(i, (k, v))) == pairs_to_map(s).insert(k@, v),
{
    let t = s.update(i, (k, v));
    assert(keys_unique(t));
    assert forall|key: Seq<char>| #[trigger] pairs_to_map(t).dom().contains(key) <==> pairs_to_map(
        s,
    ).insert(k@, v).dom().contains(key) by {
        lemma_key_index(s, key);
        lemma_key_index(t, key);
        if key_index(s, key) >= 0 {
            assert(t[key_index(s, key)].0@ == key);
        }
        if key_index(t, key) >= 0 {
            assert(s[key_index(t, key)].0@ == key);
        }
    }
    assert forall|key: Seq<char>| #[trigger] pairs_to_map(t).dom().contains(key) implies pairs_to_map(
        t,
    )[key] == pairs_to_map(s).insert(k@, v)[key] by {
        lemma_key_index(s, key);
        lemma_key_index(t, key);
        let j = key_index(t, key);
        if key == k@ {
            lemma_pair_in_map(t, i);
        } else {
            lemma_pair_in_map(s, j);
            lemma_pair_in_map(t, j);
        }
    }
    assert(pairs_to_map(t) =~= pairs_to_map(s).insert(k@, v));
}

/// How many pairs have a value that satisfies `p`.
pub open spec fn count_matching<V>(s: Seq<(String, V)>, p: spec_fn(V) -> bool) -> nat
    decreases s.len(),
{
    if s.len() == 0 {
        0
    } else {
        count_matching(s.drop_last(), p) + if p(s.last().1) {
            1nat
        } else {
            0nat
        }
    }
}

/// The keys of a map whose values satisfy `p`.
pub open spec fn keys_where<V>(m: Map<Seq<char>, V>, p: spec_fn(V) -> bool) -> Set<Seq<char>> {
    m.dom().filter(|k: Seq<char>| p(m[k]))
}

/// With unique keys, counting pairs is counting keys.
pub proof fn lemma_count_matching<V>(s: Seq<(String, V)>, p: spec_fn(V) -> bool)
    requires
        keys_unique(s),
    ensures
        keys_where(pairs_to_map(s), p).finite(),
        count_matching(s, p) == keys_where(pairs_to_map(s), p).len(),
    decreases s.len(),
{
    lemma_map_finite(s);
    let m = pairs_to_map(s);
    m.dom().lemma_len_filter(|k: Seq<char>| p(m[k]));
    if s.len() > 0 {
        let t = s.drop_last();
        assert(keys_unique(t));
        lemma_count_matching(t, p);
        lemma_key_index(t, s.last().0@);
        let mt = pairs_to_map(t);
        let k = s.last().0@;
        assert(!mt.dom().contains(k));
        let ft = keys_where(mt, p);
        let f = keys_where(m, p);
        if p(s.last().1) {
            assert(f =~= ft.insert(k));
        } else {
            assert(f =~= ft);
        }
    } else {
        assert(keys_where(m, p) =~= Set::<Seq<char>>::empty());
    }
}

/// An association list from strings to values in which no key occurs twice.
pub struct StrMap<V> {
    entries: Vec<(String, V)>,
}

impl<V> View for StrMap<V> {
    type V = Map<Seq<char>, V>;

    open spec fn view(&self) -> Map<Seq<char>, V> {
        pairs_to_map(self.pairs())
    }
}

impl<V> StrMap<V> {
    /// The pairs in the order in which their keys were first inserted.
    pub closed spec fn pairs(&self) -> Seq<(String, V)> {
        self.entries@
    }

    pub open spec fn wf(&self) -> bool {
        keys_unique(self.pairs())
    }

    pub fn new() -> (m: Self)
        ensures
            m.wf(),
            m.pairs() == Seq::<(String, V)>::empty(),
            m@ == Map::<Seq<char>, V>::empty(),
    {
        let m = StrMap { entries: Vec::new() };
        assert(m@ =~= Map::<Seq<char>, V>::empty());
        m
    }

    pub fn len(&self) -> (n: usize)
        requires
            self.wf(),
        ensures
            n == self.pairs().len(),
            n == self@.dom().len(),
            self@.dom().finite(),
    {
        proof {
            lemma_map_len(self.pairs());
        }
        self.entries.len()
    }

    /// The keys in order.
    pub fn keys(&self) -> (r: Vec<String>)
        ensures
            r@.len() == self.pairs().len(),
            forall|i: int| 0 <= i < r@.len() ==> #[trigger] r@[i] == self.pairs()[i].0,
    {
        let mut out: Vec<String> = Vec::new();
        let n = self.entries.len();
        let mut i: usize = 0;
        while i < n
            invariant
                n == self.pairs().len(),
                i <= n,
                out@.len() == i,
                forall|j: int| 0 <= j < i ==> #[trigger] out@[j] == self.pairs()[j].0,
            decreases n - i,
        {
            out.push(self.entries[i].0.clone());
            i += 1;
        }
        out
    }

    /// The key of the `i`-th pair.
    pub fn key_at(&self, i: usize) -> (k: &String)
        requires
            i < self.pairs().len(),
        ensures
            *k == self.pairs()[i as int].0,
    {
        &self.entries[i].0
    }

    /// The value of the `i`-th pair.
    pub fn value_at(&self, i: usize) -> (v: &V)
        requires
            i < self.pairs().len(),
        ensures
            *v == self.pairs()[i as int].1,
    {
        &self.entries[i].1
    }

    /// Replaces the value of the `i`-th pair; its key and position stay.
    pub fn set_value_at(&mut self, i: usize, v: V)
        requires
            old(self).wf(),
            i < old(self).pairs().len(),
        ensures
            final(self).wf(),
            final(self).pairs().len() == old(self).pairs().len(),
            final(self).pairs()[i as int].1 == v,
            forall|j: int|
                0 <= j < old(self).pairs().len() ==> #[trigger] final(self).pairs()[j].0
                    == old(self).pairs()[j].0,
            forall|j: int|
                0 <= j < old(self).pairs().len() && j != i ==> #[trigger] final(self).pairs()[j]
                    == old(self).pairs()[j],
            final(self)@ == old(self)@.insert(old(self).pairs()[i as int].0@, v),
    {
        let ghost s = self.pairs();
        let mut pair = (String::new(), v);
        self.entries.set_and_swap(i, &mut pair);
        let (k, _) = pair;
        proof {
            lemma_update_value(s, i as int, k, v);
        }
        self.entries[i].0 = k;
        assert(self.pairs() =~= s.update(i as int, (k, v)));
    }

    /// The position of the key `k`, if it is present.
    pub fn find(&self, k: &str) -> (r: Option<usize>)
        requires
            self.wf(),
        ensures
            match r {
                Some(i) => i < self.pairs().len() && self.pairs()[i as int].0@ == k@
                    && self@.contains_key(k@) && self@[k@] == self.pairs()[i as int].1,
                None => !self@.contains_key(k@),
            },
    {
        let n = self.entries.len();
        let mut i: usize = 0;
        while i < n
            invariant
                n == self.pairs().len(),
                self.wf(),
                i <= n,
                forall|j: int| 0 <= j < i ==> self.pairs()[j].0@ != k@,
            decreases n - i,
        {
            if str_eq(self.entries[i].0.as_str(), k) {
                proof {
                    lemma_pair_in_map(self.pairs(), i as int);
                }
                return Some(i);
            }
            i += 1;
        }
        proof {
            lemma_key_index(self.pairs(), k@);
        }
        None
    }

    pub fn contains_key(&self, k: &str) -> (b: bool)
        requires
            self.wf(),
        ensures
            b == self@.contains_key(k@),
    {
        self.find(k).is_some()
    }

    pub fn get(&self, k: &str) -> (r: Option<&V>)
        requires
            self.wf(),
        ensures
            match r {
                Some(v) => self@.contains_key(k@) && *v == self@[k@],
                None => !self@.contains_key(k@),
            },
    {
        match self.find(k) {
            Some(i) => Some(&self.entries[i].1),
            None => None,
        }
    }

    /// A mutable reference to the value of `k`, if present; whatever is
    /// written through it becomes the map's value for `k`.
    pub fn get_mut(&mut self, k: &str) -> (r: Option<&mut V>)
        requires
            old(self).wf(),
        ensures
            final(self).wf(),
            match r {
                Some(v) => old(self)@.contains_key(k@) && *v == old(self)@[k@] && final(self)@
                    == old(self)@.insert(k@, *final(v)) && final(self).pairs().len() == old(
                    self,
                ).pairs().len() && (forall|j: int|
                    0 <= j < old(self).pairs().len() ==> #[trigger] final(self).pairs()[j].0
                        == old(self).pairs()[j].0),
                None => !old(self)@.contains_key(k@) && *final(self) == *old(self),
            },
    {
        match self.find(k) {
            Some(i) => {
                let ghost s = self.pairs();
                let ghost key = s[i as int].0;
                let r = &mut self.entries[i].1;
                proof {
                    lemma_pair_in_map(s, i as int);
                    lemma_update_value(s, i as int, key, *final(r));
                }
                Some(r)
            },
            None => None,
        }
    }

    /// Sets the value of `k`: an existing key keeps its position, a new key
    /// goes last.
    pub fn insert(&mut self, k: String, v: V)
        requires
            old(self).wf(),
        ensures
            final(self).wf(),
            final(self)@ == old(self)@.insert(k@, v),
            old(self)@.contains_key(k@) ==> final(self).pairs().len() == old(self).pairs().len()
                && (forall|j: int|
                0 <= j < old(self).pairs().len() ==> #[trigger] final(self).pairs()[j].0@ == old(
                    self,
                ).pairs()[j].0@),
            old(self)@.contains_key(k@) ==> final(self).pairs() == old(self).pairs().update(
                key_index(old(self).pairs(), k@),
                (k, v),
            ),
            !old(self)@.contains_key(k@) ==> final(self).pairs() == old(self).pairs().push((k, v)),
    {
        match self.find(k.as_str()) {
            Some(i) => {
                proof {
                    lemma_update_value(self.pairs(), i as int, k, v);
                    lemma_pair_in_map(self.pairs(), i as int);
                }
                self.entries.set(i, (k, v));
            },
            None => {
                let ghost s = self.pairs();
                proof {
                    lemma_key_index(s, k@);
                }
                self.entries.push((k, v));
                assert(self.pairs().drop_last() =~= s);
            },
        }
    }

    /// Removes `k` and gives back its value; the other pairs keep their order.
    pub fn remove(&mut self, k: &str) -> (r: Option<V>)
        requires
            old(self).wf(),
        ensures
            final(self).wf(),
            final(self)@ == old(self)@.remove(k@),
            match r {
                Some(v) => old(self)@.contains_key(k@) && v == old(self)@[k@],
                None => !old(self)@.contains_key(k@),
            },
    {
        match self.find(k) {
            Some(i) => {
                let ghost s = self.pairs();
                let (_, v) = self.entries.remove(i);
                proof {
                    let t = self.pairs();
                    assert(t =~= s.remove(i as int));
                    assert(keys_unique(t));
                    assert forall|key: Seq<char>|
                        #[trigger] pairs_to_map(t).dom().contains(key) <==> pairs_to_map(s).remove(
                            k@,
                        ).dom().contains(key) by {
                        lemma_key_index(s, key);
                        lemma_key_index(t, key);
                        if key_index(s, key) >= 0 && key != k@ {
                            let j = key_index(s, key);
                            if j < i {
                                assert(t[j] == s[j]);
                            } else {
                                assert(j != i);
                                assert(t[j - 1] == s[j]);
                            }
                        }
                        if key_index(t, key) >= 0 {
                            let j = key_index(t, key);
                            if j < i {
                                assert(t[j] == s[j]);
                            } else {
                                assert(t[j] == s[j + 1]);
                            }
                            lemma_pair_in_map(s, i as int);
                        }
                    }
                    assert forall|key: Seq<char>| #[trigger]
                        pairs_to_map(t).dom().contains(key) implies pairs_to_map(t)[key]
                        == pairs_to_map(s).remove(k@)[key] by {
                        lemma_key_index(t, key);
                        let j = key_index(t, key);
                        lemma_pair_in_map(t, j);
                        if j < i {
                            assert(t[j] == s[j]);
                            lemma_pair_in_map(s, j);
                        } else {
                            assert(t[j] == s[j + 1]);
                            lemma_pair_in_map(s, j + 1);
                        }
                    }
                    assert(pairs_to_map(t) =~= pairs_to_map(s).remove(k@));
                }
                Some(v)
            },
            None => {
                assert(self@ =~= self@.remove(k@));
                None
            },
        }
    }
}

impl<V: Clone> Clone for StrMap<V> {
    /// A pair-by-pair copy: same keys in the same order, each value cloned.
    fn clone(&self) -> (r: Self)
        ensures
            self.wf() ==> r.wf(),
            r.pairs().len() == self.pairs().len(),
            forall|i: int|
                0 <= i < self.pairs().len() ==> #[trigger] r.pairs()[i].0 == self.pairs()[i].0
                    && cloned::<V>(self.pairs()[i].1, r.pairs()[i].1),
    {
        let mut entries: Vec<(String, V)> = Vec::new();
        let n = self.entries.len();
        let mut i: usize = 0;
        while i < n
            invariant
                n == self.pairs().len(),
                i <= n,
                entries@.len() == i,
                forall|j: int|
                    0 <= j < i ==> #[trigger] entries@[j].0 == self.pairs()[j].0 && cloned::<V>(
                        self.pairs()[j].1,
                        entries@[j].1,
                    ),
            decreases n - i,
        {
            let k = self.entries[i].0.clone();
            let v = self.entries[i].1.clone();
            entries.push((k, v));
            i += 1;
        }
        let r = StrMap { entries };
        assert forall|a: int, b: int|
            self.wf() && 0 <= a < r.pairs().len() && 0 <= b < r.pairs().len() && a != b implies r.pairs()[a].0@
            != r.pairs()[b].0@ by {
            assert(r.pairs()[a].0 == self.pairs()[a].0 && r.pairs()[b].0 == self.pairs()[b].0);
        }
        r
    }
}

} // verus!
