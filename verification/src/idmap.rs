//! A small association map keyed by `u64`, backed by a vector of pairs.
//!
//! The entity synchronizers, the input snapshot and the registries all need a
//! map from a 64-bit identifier to some record. This one keeps its entries in
//! insertion order, holds each key at most once, and is specified against a
//! mathematical `Map<u64, V>`.

use vstd::prelude::*;

verus! {

/// No key occurs twice in the entry sequence.
pub open spec fn distinct_keys<V>(s: Seq<(u64, V)>) -> bool {
    forall|i: int, j: int| 0 <= i < j < s.len() ==> s[i].0 != s[j].0
}

/// The mathematical map described by an entry sequence; a later entry for the
/// same key wins.
pub open spec fn map_of<V>(s: Seq<(u64, V)>) -> Map<u64, V>
    decreases s.len(),
{
    if s.len() == 0 {
        Map::empty()
    } else {
        map_of(s.drop_last()).insert(s.last().0, s.last().1)
    }
}

pub proof fn lemma_map_of_contains<V>(s: Seq<(u64, V)>, k: u64)
    ensures
        map_of(s).dom().contains(k) <==> exists|i: int| 0 <= i < s.len() && s[i].0 == k,
    decreases s.len(),
{
    if s.len() == 0 {
    } else {
        lemma_map_of_contains(s.drop_last(), k);
        if s.last().0 == k {
            assert(s[s.len() - 1].0 == k);
        } else if map_of(s).dom().contains(k) {
            let i = choose|i: int| 0 <= i < s.drop_last().len() && s.drop_last()[i].0 == k;
            assert(s[i].0 == k);
        } else if exists|i: int| 0 <= i < s.len() && s[i].0 == k {
            let i = choose|i: int| 0 <= i < s.len() && s[i].0 == k;
            assert(s.drop_last()[i].0 == k);
        }
    }
}

pub proof fn lemma_map_of_get<V>(s: Seq<(u64, V)>, i: int)
    requires
        distinct_keys(s),
        0 <= i < s.len(),
    ensures
        map_of(s).dom().contains(s[i].0),
        map_of(s)[s[i].0] == s[i].1,
    decreases s.len(),
{
    if i == s.len() - 1 {
    } else {
        assert(s.drop_last()[i] == s[i]);
        lemma_map_of_get(s.drop_last(), i);
    }
}

pub proof fn lemma_map_of_absent<V>(s: Seq<(u64, V)>, k: u64)
    requires
        forall|i: int| 0 <= i < s.len() ==> s[i].0 != k,
    ensures
        !map_of(s).dom().contains(k),
    decreases s.len(),
{
    if s.len() > 0 {
        assert(forall|i: int| 0 <= i < s.drop_last().len() ==> s.drop_last()[i].0 != k);
        lemma_map_of_absent(s.drop_last(), k);
    }
}

pub proof fn lemma_map_of_len<V>(s: Seq<(u64, V)>)
    requires
        distinct_keys(s),
    ensures
        map_of(s).dom().finite(),
        map_of(s).dom().len() == s.len(),
    decreases s.len(),
{
    if s.len() > 0 {
        lemma_map_of_len(s.drop_last());
        assert(forall|i: int| 0 <= i < s.drop_last().len() ==> s.drop_last()[i].0 != s.last().0);
        lemma_map_of_absent(s.drop_last(), s.last().0);
    }
}

pub proof fn lemma_map_of_update<V>(s: Seq<(u64, V)>, i: int, v: V)
    requires
        distinct_keys(s),
        0 <= i < s.len(),
    ensures
        map_of(s.update(i, (s[i].0, v))) == map_of(s).insert(s[i].0, v),
        distinct_keys(s.update(i, (s[i].0, v))),
    decreases s.len(),
{
    let t = s.update(i, (s[i].0, v));
    assert(forall|j: int| 0 <= j < s.len() && j != i ==> t[j] == s[j]);
    if i == s.len() - 1 {
        assert(t.drop_last() =~= s.drop_last());
        assert(map_of(t) =~= map_of(s).insert(s[i].0, v));
    } else {
        assert(t.drop_last() =~= s.drop_last().update(i, (s[i].0, v)));
        assert(s.drop_last()[i] == s[i]);
        lemma_map_of_update(s.drop_last(), i, v);
        assert(s[i].0 != s.last().0);
        assert(map_of(t) =~= map_of(s).insert(s[i].0, v));
    }
}

pub proof fn lemma_map_of_remove<V>(s: Seq<(u64, V)>, i: int)
    requires
        distinct_keys(s),
        0 <= i < s.len(),
    ensures
        map_of(s.remove(i)) == map_of(s).remove(s[i].0),
        distinct_keys(s.remove(i)),
    decreases s.len(),
{
    let t = s.remove(i);
    assert(forall|j: int| 0 <= j < i ==> t[j] == s[j]);
    assert(forall|j: int| i <= j < t.len() ==> t[j] == s[j + 1]);
    if i == s.len() - 1 {
        assert(t =~= s.drop_last());
        assert(forall|j: int| 0 <= j < t.len() ==> t[j].0 != s[i].0);
        lemma_map_of_absent(t, s[i].0);
        assert(map_of(t) =~= map_of(s).remove(s[i].0));
    } else {
        assert(t.drop_last() =~= s.drop_last().remove(i));
        assert(s.drop_last()[i] == s[i]);
        lemma_map_of_remove(s.drop_last(), i);
        assert(s[i].0 != s.last().0);
        assert(t.last() == s.last());
        assert(map_of(t) =~= map_of(s).remove(s[i].0));
    }
}

/// An insertion-ordered map from `u64` keys to values, with each key held at
/// most once.
pub struct IdMap<V> {
    entries: Vec<(u64, V)>,
}

impl<V> View for IdMap<V> {
    type V = Map<u64, V>;

    closed spec fn view(&self) -> Map<u64, V> {
        map_of(self.entries@)
    }
}

impl<V> IdMap<V> {
    /// Well-formed: each key occurs at most once. Constructors establish it
    /// and every method keeps it.
    pub closed spec fn wf(self) -> bool {
        distinct_keys(self.entries@)
    }

    /// The keys in insertion order; same cardinality as the map's domain.
    pub closed spec fn key_seq(&self) -> Seq<u64> {
        self.entries@.map_values(|e: (u64, V)| e.0)
    }

    /// The entries as stored, in insertion order.
    pub closed spec fn entries_seq(&self) -> Seq<(u64, V)> {
        self.entries@
    }

    /// The view is the map described by the stored entries.
    pub proof fn lemma_view_entries(&self)
        ensures
            self@ == map_of(self.entries_seq()),
            self.wf() ==> distinct_keys(self.entries_seq()),
    {
    }

    /// A well-formed map has a finite domain, no larger than a vector can be.
    pub proof fn lemma_dom_finite(&self)
        requires
            self.wf(),
        ensures
            self@.dom().finite(),
            self@.dom().len() == self.key_seq().len(),
            self@.dom().len() <= usize::MAX,
    {
        broadcast use vstd::std_specs::vec::axiom_spec_len;

        lemma_map_of_len(self.entries@);
        assert(self.entries@.len() == vstd::std_specs::vec::spec_vec_len(&self.entries));
    }

    pub fn new() -> (r: IdMap<V>)
        ensures
            r.wf(),
            r@ == Map::<u64, V>::empty(),
            r.key_seq() == Seq::<u64>::empty(),
    {
        let r = IdMap { entries: Vec::new() };
        proof {
            assert(r.key_seq() =~= Seq::<u64>::empty());
        }
        r
    }

    pub fn len(&self) -> (n: usize)
        requires
            self.wf(),
        ensures
            n == self@.dom().len(),
            n == self.key_seq().len(),
    {
        proof {
            lemma_map_of_len(self.entries@);
        }
        self.entries.len()
    }

    pub fn is_empty(&self) -> (b: bool)
        requires
            self.wf(),
        ensures
            b == self@.dom().is_empty(),
    {
        proof {
            lemma_map_of_len(self.entries@);
            if self.entries@.len() == 0 {
                assert(self@.dom() =~= Set::<u64>::empty());
            } else {
                assert(self@.dom().len() != 0);
            }
        }
        self.entries.len() == 0
    }

    fn index_of(&self, k: u64) -> (r: Option<usize>)
        requires
            self.wf(),
        ensures
            match r {
                Some(i) => i < self.entries@.len() && self.entries@[i as int].0 == k
                    && self@.dom().contains(k),
                None => !self@.dom().contains(k),
            },
    {
        let n = self.entries.len();
        let mut i: usize = 0;
        while i < n
            invariant
                n == self.entries@.len(),
                i <= n,
                forall|j: int| 0 <= j < i ==> self.entries@[j].0 != k,
            decreases n - i,
        {
            if self.entries[i].0 == k {
                proof {
                    lemma_map_of_contains(self.entries@, k);
                }
                return Some(i);
            }
            i = i + 1;
        }
        proof {
            lemma_map_of_absent(self.entries@, k);
        }
        None
    }

    pub fn contains_key(&self, k: u64) -> (b: bool)
        requires
            self.wf(),
        ensures
            b == self@.dom().contains(k),
    {
        self.index_of(k).is_some()
    }

    pub fn get(&self, k: u64) -> (r: Option<&V>)
        requires
            self.wf(),
        ensures
            match r {
                Some(v) => self@.dom().contains(k) && *v == self@[k],
                None => !self@.dom().contains(k),
            },
    {
        match self.index_of(k) {
            Some(i) => {
                proof {
                    lemma_map_of_get(self.entries@, i as int);
                }
                Some(&self.entries[i].1)
            },
            None => None,
        }
    }

    /// A mutable borrow of the value for `k`: the caller reads the stored
    /// value, and whatever it leaves behind is what `k` maps to afterwards.
    pub fn get_mut(&mut self, k: u64) -> (r: Option<&mut V>)
        requires
            old(self).wf(),
        ensures
            match r {
                Some(v) => old(self)@.dom().contains(k) && *v == old(self)@[k] && final(self).wf()
                    && final(self)@ == old(self)@.insert(k, *final(v)) && final(self).key_seq()
                    == old(self).key_seq(),
                None => !old(self)@.dom().contains(k) && *final(self) == *old(self),
            },
    {
        match self.index_of(k) {
            Some(i) => {
                proof {
                    lemma_map_of_get(self.entries@, i as int);
                    assert forall|v: V|
                        map_of(self.entries@.update(i as int, (k, v))) == map_of(
                            self.entries@,
                        ).insert(k, v) && distinct_keys(self.entries@.update(i as int, (k, v)))
                            && self.entries@.update(i as int, (k, v)).map_values(
                            |e: (u64, V)| e.0,
                        ) =~= self.key_seq() by {
                        lemma_map_of_update(self.entries@, i as int, v);
                    }
                }
                let entry = &mut self.entries[i];
                Some(&mut entry.1)
            },
            None => None,
        }
    }

    /// Inserts or replaces the value for `k`. A fresh key goes to the back of
    /// the insertion order; an existing key keeps its place.
    pub fn insert(&mut self, k: u64, v: V)
        requires
            old(self).wf(),
        ensures
            final(self).wf(),
            final(self)@ == old(self)@.insert(k, v),
            old(self)@.dom().contains(k) ==> final(self).key_seq() == old(self).key_seq(),
            !old(self)@.dom().contains(k) ==> final(self).key_seq() == old(self).key_seq().push(
                k,
            ),
    {
        match self.index_of(k) {
            Some(i) => {
                proof {
                    lemma_map_of_update(self.entries@, i as int, v);
                }
                self.entries.set(i, (k, v));
                proof {
                    assert(self.key_seq() =~= old(self).key_seq());
                }
            },
            None => {
                proof {
                    lemma_map_of_contains(self.entries@, k);
                }
                self.entries.push((k, v));
                proof {
                    assert(self.entries@.drop_last() =~= old(self).entries@);
                    assert(self.key_seq() =~= old(self).key_seq().push(k));
                    assert(forall|i: int|
                        0 <= i < old(self).entries@.len() ==> self.entries@[i] == old(
                            self,
                        ).entries@[i]);
                }
            },
        }
    }

    /// Removes `k` if present, returning its value; the order of the other
    /// entries is unchanged.
    pub fn remove(&mut self, k: u64) -> (r: Option<V>)
        requires
            old(self).wf(),
        ensures
            final(self).wf(),
            final(self)@ == old(self)@.remove(k),
            match r {
                Some(v) => old(self)@.dom().contains(k) && v == old(self)@[k],
                None => !old(self)@.dom().contains(k),
            },
    {
        match self.index_of(k) {
            Some(i) => {
                proof {
                    lemma_map_of_get(self.entries@, i as int);
                    lemma_map_of_remove(self.entries@, i as int);
                }
                let (_, v) = self.entries.remove(i);
                Some(v)
            },
            None => {
                proof {
                    assert(self@ =~= old(self)@.remove(k));
                }
                None
            },
        }
    }

    /// Removes and returns the most recently inserted entry, if any.
    pub fn pop(&mut self) -> (r: Option<(u64, V)>)
        requires
            old(self).wf(),
        ensures
            final(self).wf(),
            match r {
                Some(e) => old(self)@.dom().contains(e.0) && e.1 == old(self)@[e.0]
                    && final(self)@ == old(self)@.remove(e.0),
                None => old(self)@.dom() =~= Set::<u64>::empty() && final(self)@ == old(self)@,
            },
    {
        proof {
            if self.entries@.len() > 0 {
                let i = self.entries@.len() - 1;
                lemma_map_of_get(self.entries@, i);
                lemma_map_of_remove(self.entries@, i);
                assert(self.entries@.remove(i) =~= self.entries@.drop_last());
            } else {
                assert(self@.dom() =~= Set::<u64>::empty());
            }
        }
        self.entries.pop()
    }

    /// Drops every entry.
    pub fn clear(&mut self)
        ensures
            final(self).wf(),
            final(self)@ == Map::<u64, V>::empty(),
            final(self).key_seq() == Seq::<u64>::empty(),
    {
        self.entries.clear();
        proof {
            assert(self.key_seq() =~= Seq::<u64>::empty());
        }
    }

    /// The keys in insertion order.
    pub fn keys(&self) -> (r: Vec<u64>)
        requires
            self.wf(),
        ensures
            r@ == self.key_seq(),
            forall|k: u64| self@.dom().contains(k) <==> r@.contains(k),
            forall|i: int, j: int| 0 <= i < j < r@.len() ==> r@[i] != r@[j],
    {
        let n = self.entries.len();
        let mut r: Vec<u64> = Vec::new();
        let mut i: usize = 0;
        while i < n
            invariant
                n == self.entries@.len(),
                i <= n,
                r@.len() == i,
                forall|j: int| 0 <= j < i ==> r@[j] == self.entries@[j].0,
            decreases n - i,
        {
            r.push(self.entries[i].0);
            i = i + 1;
        }
        proof {
            assert(r@ =~= self.key_seq());
            assert forall|k: u64| self@.dom().contains(k) <==> r@.contains(k) by {
                lemma_map_of_contains(self.entries@, k);
                if exists|i: int| 0 <= i < self.entries@.len() && self.entries@[i].0 == k {
                    let i = choose|i: int|
                        0 <= i < self.entries@.len() && self.entries@[i].0 == k;
                    assert(r@[i] == k);
                }
            }
        }
        r
    }
}

} // verus!
