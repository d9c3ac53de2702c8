//! String-keyed companions to `idmap`: a set of names and a map from names
//! to values, both backed by vectors and specified against mathematical
//! `Set<Seq<char>>` and `Map<Seq<char>, V>`.

use vstd::prelude::*;

verus! {

/// No name occurs twice.
pub open spec fn distinct_names(s: Seq<String>) -> bool {
    forall|i: int, j: int| 0 <= i < j < s.len() ==> s[i]@ != s[j]@
}

/// The set of names in a sequence.
pub open spec fn set_of(s: Seq<String>) -> Set<Seq<char>>
    decreases s.len(),
{
    if s.len() == 0 {
        Set::empty()
    } else {
        set_of(s.drop_last()).insert(s.last()@)
    }
}

pub proof fn lemma_set_of_contains(s: Seq<String>, k: Seq<char>)
    ensures
        set_of(s).contains(k) <==> exists|i: int| 0 <= i < s.len() && s[i]@ == k,
    decreases s.len(),
{
    if s.len() == 0 {
    } else {
        lemma_set_of_contains(s.drop_last(), k);
        if s.last()@ == k {
            assert(s[s.len() - 1]@ == k);
        } else if set_of(s).contains(k) {
            let i = choose|i: int| 0 <= i < s.drop_last().len() && s.drop_last()[i]@ == k;
            assert(s[i]@ == k);
        } else if exists|i: int| 0 <= i < s.len() && s[i]@ == k {
            let i = choose|i: int| 0 <= i < s.len() && s[i]@ == k;
            assert(s.drop_last()[i]@ == k);
        }
    }
}

/// A set of names (keys, button names, watched paths), each held once.
pub struct StrSet {
    items: Vec<String>,
}

impl View for StrSet {
    type V = Set<Seq<char>>;

    closed spec fn view(&self) -> Set<Seq<char>> {
        set_of(self.items@)
    }
}

impl StrSet {
    /// Well-formed: each name occurs at most once.
    pub closed spec fn wf(self) -> bool {
        distinct_names(self.items@)
    }

    pub fn new() -> (r: StrSet)
        ensures
            r.wf(),
            r@ == Set::<Seq<char>>::empty(),
    {
        StrSet { items: Vec::new() }
    }

    pub fn len(&self) -> (n: usize)
        requires
            self.wf(),
        ensures
            n == self@.len(),
    {
        proof {
            lemma_strset_len(self.items@);
        }
        self.items.len()
    }

    pub fn is_empty(&self) -> (b: bool)
        requires
            self.wf(),
        ensures
            b == self@.is_empty(),
    {
        proof {
            lemma_strset_len(self.items@);
            if self.items@.len() == 0 {
                assert(self@ =~= Set::<Seq<char>>::empty());
            } else {
                assert(self@.len() != 0);
            }
        }
        self.items.len() == 0
    }

    pub fn contains(&self, name: &str) -> (b: bool)
        ensures
            b == self@.contains(name@),
    {
        let key = name.to_owned();
        let n = self.items.len();
        let mut i: usize = 0;
        while i < n
            invariant
                key@ == name@,
                n == self.items@.len(),
                i <= n,
                forall|j: int| 0 <= j < i ==> self.items@[j]@ != name@,
            decreases n - i,
        {
            if self.items[i] == key {
                proof {
                    lemma_set_of_contains(self.items@, name@);
                }
                return true;
            }
            i = i + 1;
        }
        proof {
            lemma_set_of_contains(self.items@, name@);
        }
        false
    }

    /// Puts a name in; already-present names are not duplicated.
    pub fn insert(&mut self, name: String)
        requires
            old(self).wf(),
        ensures
            final(self).wf(),
            final(self)@ == old(self)@.insert(name@),
    {
        if !self.contains(name.as_str()) {
            self.items.push(name);
            proof {
                assert(self.items@.drop_last() =~= old(self).items@);
                lemma_set_of_contains(old(self).items@, self.items@.last()@);
            }
        } else {
            proof {
                assert(self@ =~= old(self)@.insert(name@));
            }
        }
    }

    pub fn clear(&mut self)
        ensures
            final(self).wf(),
            final(self)@ == Set::<Seq<char>>::empty(),
    {
        self.items.clear();
    }

    /// A copy of this set.
    pub fn duplicate(&self) -> (r: StrSet)
        requires
            self.wf(),
        ensures
            r.wf(),
            r@ == self@,
    {
        let n = self.items.len();
        let mut items: Vec<String> = Vec::new();
        let mut i: usize = 0;
        while i < n
            invariant
                n == self.items@.len(),
                i <= n,
                items@.len() == i,
                forall|j: int| 0 <= j < i ==> items@[j]@ == self.items@[j]@,
            decreases n - i,
        {
            items.push(self.items[i].clone());
            i = i + 1;
        }
        let r = StrSet { items };
        proof {
            lemma_set_of_congruent(r.items@, self.items@);
        }
        r
    }

    /// The names currently in the set, each once, in insertion order.
    pub fn to_vec(&self) -> (r: Vec<String>)
        requires
            self.wf(),
        ensures
            r@.len() == self@.len(),
            forall|k: Seq<char>| self@.contains(k) <==> exists|i: int|
                0 <= i < r@.len() && #[trigger] r@[i]@ == k,
            forall|i: int, j: int| 0 <= i < j < r@.len() ==> r@[i]@ != r@[j]@,
    {
        let r = self.duplicate();
        proof {
            lemma_strset_len(r.items@);
            assert forall|k: Seq<char>| self@.contains(k) implies exists|i: int|
                0 <= i < r.items@.len() && #[trigger] r.items@[i]@ == k by {
                lemma_set_of_contains(r.items@, k);
            }
            assert forall|k: Seq<char>|
                (exists|i: int| 0 <= i < r.items@.len() && #[trigger] r.items@[i]@ == k)
                    implies self@.contains(k) by {
                lemma_set_of_contains(r.items@, k);
            }
        }
        r.items
    }

    /// The names in this set that are not in `other`: with this frame's
    /// pressed set and the previous frame's, this is the just-pressed set.
    pub fn difference(&self, other: &StrSet) -> (r: StrSet)
        requires
            self.wf(),
        ensures
            r.wf(),
            r@ == self@.difference(other@),
    {
        let n = self.items.len();
        let mut r = StrSet::new();
        let mut i: usize = 0;
        proof {
            assert(r@ =~= set_of(self.items@.subrange(0, 0)).difference(other@));
        }
        while i < n
            invariant
                n == self.items@.len(),
                i <= n,
                r.wf(),
                r@ == set_of(self.items@.subrange(0, i as int)).difference(other@),
            decreases n - i,
        {
            let ghost prefix = self.items@.subrange(0, i as int);
            let ghost cur = self.items@[i as int]@;
            proof {
                let ext = prefix.push(self.items@[i as int]);
                assert(self.items@.subrange(0, i as int + 1) =~= ext);
                assert(ext.drop_last() =~= prefix);
                assert(ext.last() == self.items@[i as int]);
                assert(set_of(ext) == set_of(prefix).insert(cur));
            }
            if !other.contains(self.items[i].as_str()) {
                r.insert(self.items[i].clone());
                proof {
                    assert(r@ =~= set_of(self.items@.subrange(0, i as int + 1)).difference(
                        other@,
                    ));
                }
            } else {
                proof {
                    assert(r@ =~= set_of(self.items@.subrange(0, i as int + 1)).difference(
                        other@,
                    ));
                }
            }
            i = i + 1;
        }
        proof {
            assert(self.items@.subrange(0, n as int) =~= self.items@);
        }
        r
    }
}

proof fn lemma_set_of_congruent(a: Seq<String>, b: Seq<String>)
    requires
        a.len() == b.len(),
        forall|i: int| 0 <= i < a.len() ==> a[i]@ == b[i]@,
    ensures
        set_of(a) == set_of(b),
        distinct_names(b) ==> distinct_names(a),
    decreases a.len(),
{
    if a.len() > 0 {
        assert(forall|i: int|
            0 <= i < a.drop_last().len() ==> a.drop_last()[i]@ == b.drop_last()[i]@);
        lemma_set_of_congruent(a.drop_last(), b.drop_last());
        assert(set_of(a) =~= set_of(b));
    } else {
        assert(set_of(a) =~= set_of(b));
    }
}

proof fn lemma_strset_len(s: Seq<String>)
    requires
        distinct_names(s),
    ensures
        set_of(s).finite(),
        set_of(s).len() == s.len(),
    decreases s.len(),
{
    if s.len() > 0 {
        lemma_strset_len(s.drop_last());
        lemma_set_of_contains(s.drop_last(), s.last()@);
        if set_of(s.drop_last()).contains(s.last()@) {
            let i = choose|i: int|
                0 <= i < s.drop_last().len() && s.drop_last()[i]@ == s.last()@;
            assert(s[i]@ == s[s.len() - 1]@);
            assert(false);
        }
    }
}

/// The mathematical map described by a name-keyed entry sequence.
pub open spec fn str_map_of<V>(s: Seq<(String, V)>) -> Map<Seq<char>, V>
    decreases s.len(),
{
    if s.len() == 0 {
        Map::empty()
    } else {
        str_map_of(s.drop_last()).insert(s.last().0@, s.last().1)
    }
}

/// No name occurs twice among the entries.
pub open spec fn distinct_entry_names<V>(s: Seq<(String, V)>) -> bool {
    forall|i: int, j: int| 0 <= i < j < s.len() ==> s[i].0@ != s[j].0@
}

pub proof fn lemma_str_map_of_contains<V>(s: Seq<(String, V)>, k: Seq<char>)
    ensures
        str_map_of(s).dom().contains(k) <==> exists|i: int| 0 <= i < s.len() && s[i].0@ == k,
    decreases s.len(),
{
    if s.len() == 0 {
    } else {
        lemma_str_map_of_contains(s.drop_last(), k);
        if s.last().0@ == k {
            assert(s[s.len() - 1].0@ == k);
        } else if str_map_of(s).dom().contains(k) {
            let i = choose|i: int| 0 <= i < s.drop_last().len() && s.drop_last()[i].0@ == k;
            assert(s[i].0@ == k);
        } else if exists|i: int| 0 <= i < s.len() && s[i].0@ == k {
            let i = choose|i: int| 0 <= i < s.len() && s[i].0@ == k;
            assert(s.drop_last()[i].0@ == k);
        }
    }
}

pub proof fn lemma_str_map_of_get<V>(s: Seq<(String, V)>, i: int)
    requires
        distinct_entry_names(s),
        0 <= i < s.len(),
    ensures
        str_map_of(s).dom().contains(s[i].0@),
        str_map_of(s)[s[i].0@] == s[i].1,
    decreases s.len(),
{
    if i == s.len() - 1 {
    } else {
        assert(s.drop_last()[i] == s[i]);
        lemma_str_map_of_get(s.drop_last(), i);
    }
}

pub proof fn lemma_str_map_of_update<V>(s: Seq<(String, V)>, i: int, name: String, v: V)
    requires
        distinct_entry_names(s),
        0 <= i < s.len(),
        name@ == s[i].0@,
    ensures
        str_map_of(s.update(i, (name, v))) == str_map_of(s).insert(s[i].0@, v),
        distinct_entry_names(s.update(i, (name, v))),
    decreases s.len(),
{
    let t = s.update(i, (name, v));
    assert(forall|j: int| 0 <= j < s.len() && j != i ==> t[j] == s[j]);
    if i == s.len() - 1 {
        assert(t.drop_last() =~= s.drop_last());
        assert(str_map_of(t) =~= str_map_of(s).insert(s[i].0@, v));
    } else {
        assert(t.drop_last() =~= s.drop_last().update(i, (name, v)));
        assert(s.drop_last()[i] == s[i]);
        lemma_str_map_of_update(s.drop_last(), i, name, v);
        assert(s[i].0@ != s.last().0@);
        assert(str_map_of(t) =~= str_map_of(s).insert(s[i].0@, v));
    }
}

pub proof fn lemma_str_map_of_absent<V>(s: Seq<(String, V)>, k: Seq<char>)
    requires
        forall|i: int| 0 <= i < s.len() ==> s[i].0@ != k,
    ensures
        !str_map_of(s).dom().contains(k),
    decreases s.len(),
{
    if s.len() > 0 {
        assert(forall|i: int| 0 <= i < s.drop_last().len() ==> s.drop_last()[i].0@ != k);
        lemma_str_map_of_absent(s.drop_last(), k);
    }
}

pub proof fn lemma_str_map_of_len<V>(s: Seq<(String, V)>)
    requires
        distinct_entry_names(s),
    ensures
        str_map_of(s).dom().finite(),
        str_map_of(s).dom().len() == s.len(),
    decreases s.len(),
{
    if s.len() > 0 {
        lemma_str_map_of_len(s.drop_last());
        assert(forall|i: int|
            0 <= i < s.drop_last().len() ==> s.drop_last()[i].0@ != s.last().0@);
        lemma_str_map_of_absent(s.drop_last(), s.last().0@);
    }
}

pub proof fn lemma_str_map_of_remove<V>(s: Seq<(String, V)>, i: int)
    requires
        distinct_entry_names(s),
        0 <= i < s.len(),
    ensures
        str_map_of(s.remove(i)) == str_map_of(s).remove(s[i].0@),
        distinct_entry_names(s.remove(i)),
    decreases s.len(),
{
    let t = s.remove(i);
    assert(forall|j: int| 0 <= j < i ==> t[j] == s[j]);
    assert(forall|j: int| i <= j < t.len() ==> t[j] == s[j + 1]);
    if i == s.len() - 1 {
        assert(t =~= s.drop_last());
        assert(forall|j: int| 0 <= j < t.len() ==> t[j].0@ != s[i].0@);
        lemma_str_map_of_absent(t, s[i].0@);
        assert(str_map_of(t) =~= str_map_of(s).remove(s[i].0@));
    } else {
        assert(t.drop_last() =~= s.drop_last().remove(i));
        assert(s.drop_last()[i] == s[i]);
        lemma_str_map_of_remove(s.drop_last(), i);
        assert(s[i].0@ != s.last().0@);
        assert(t.last() == s.last());
        assert(str_map_of(t) =~= str_map_of(s).remove(s[i].0@));
    }
}

/// An insertion-ordered map from names to values, with each name held at
/// most once.
pub struct StrMap<V> {
    entries: Vec<(String, V)>,
}

impl<V> View for StrMap<V> {
    type V = Map<Seq<char>, V>;

    closed spec fn view(&self) -> Map<Seq<char>, V> {
        str_map_of(self.entries@)
    }
}

impl<V> StrMap<V> {
    /// Well-formed: each name occurs at most once.
    pub closed spec fn wf(self) -> bool {
        distinct_entry_names(self.entries@)
    }

    pub fn new() -> (r: StrMap<V>)
        ensures
            r.wf(),
            r@ == Map::<Seq<char>, V>::empty(),
    {
        StrMap { entries: Vec::new() }
    }

    fn index_of(&self, name: &str) -> (r: Option<usize>)
        requires
            self.wf(),
        ensures
            match r {
                Some(i) => i < self.entries@.len() && self.entries@[i as int].0@ == name@
                    && self@.dom().contains(name@),
                None => !self@.dom().contains(name@),
            },
    {
        let key = name.to_owned();
        let n = self.entries.len();
        let mut i: usize = 0;
        while i < n
            invariant
                key@ == name@,
                n == self.entries@.len(),
                i <= n,
                forall|j: int| 0 <= j < i ==> self.entries@[j].0@ != name@,
            decreases n - i,
        {
            if self.entries[i].0 == key {
                proof {
                    lemma_str_map_of_contains(self.entries@, name@);
                }
                return Some(i);
            }
            i = i + 1;
        }
        proof {
            lemma_str_map_of_contains(self.entries@, name@);
        }
        None
    }

    pub fn contains_key(&self, name: &str) -> (b: bool)
        requires
            self.wf(),
        ensures
            b == self@.dom().contains(name@),
    {
        self.index_of(name).is_some()
    }

    pub fn get(&self, name: &str) -> (r: Option<&V>)
        requires
            self.wf(),
        ensures
            match r {
                Some(v) => self@.dom().contains(name@) && *v == self@[name@],
                None => !self@.dom().contains(name@),
            },
    {
        match self.index_of(name) {
            Some(i) => {
                proof {
                    lemma_str_map_of_get(self.entries@, i as int);
                }
                Some(&self.entries[i].1)
            },
            None => None,
        }
    }

    /// Inserts or replaces the value for `name`.
    pub fn insert(&mut self, name: String, v: V)
        requires
            old(self).wf(),
        ensures
            final(self).wf(),
            final(self)@ == old(self)@.insert(name@, v),
    {
        match self.index_of(name.as_str()) {
            Some(i) => {
                proof {
                    lemma_str_map_of_update(self.entries@, i as int, name, v);
                }
                self.entries.set(i, (name, v));
            },
            None => {
                proof {
                    lemma_str_map_of_contains(self.entries@, name@);
                }
                self.entries.push((name, v));
                proof {
                    assert(self.entries@.drop_last() =~= old(self).entries@);
                }
            },
        }
    }

    pub fn clear(&mut self)
        ensures
            final(self).wf(),
            final(self)@ == Map::<Seq<char>, V>::empty(),
    {
        self.entries.clear();
    }

    /// A mutable borrow of the value for `name`: the caller reads the stored
    /// value, and whatever it leaves behind is what the name maps to
    /// afterwards.
    pub fn get_mut(&mut self, name: &str) -> (r: Option<&mut V>)
        requires
            old(self).wf(),
        ensures
            match r {
                Some(v) => old(self)@.dom().contains(name@) && *v == old(self)@[name@]
                    && final(self).wf() && final(self)@ == old(self)@.insert(name@, *final(v)),
                None => !old(self)@.dom().contains(name@) && *final(self) == *old(self),
            },
    {
        match self.index_of(name) {
            Some(i) => {
                proof {
                    lemma_str_map_of_get(self.entries@, i as int);
                    let stored = self.entries@[i as int].0;
                    assert forall|v: V|
                        str_map_of(self.entries@.update(i as int, (stored, v))) == str_map_of(
                            self.entries@,
                        ).insert(name@, v) && distinct_entry_names(
                            self.entries@.update(i as int, (stored, v)),
                        ) by {
                        lemma_str_map_of_update(self.entries@, i as int, stored, v);
                    }
                }
                let entry = &mut self.entries[i];
                Some(&mut entry.1)
            },
            None => None,
        }
    }

    /// The mapped names, each once, in insertion order.
    pub fn keys(&self) -> (r: Vec<String>)
        requires
            self.wf(),
        ensures
            r@.len() == self.entries_len(),
            forall|k: Seq<char>| self@.dom().contains(k) <==> exists|i: int|
                0 <= i < r@.len() && #[trigger] r@[i]@ == k,
            forall|i: int, j: int| 0 <= i < j < r@.len() ==> r@[i]@ != r@[j]@,
    {
        let n = self.entries.len();
        let mut r: Vec<String> = Vec::new();
        let mut i: usize = 0;
        while i < n
            invariant
                n == self.entries@.len(),
                i <= n,
                r@.len() == i,
                forall|j: int| 0 <= j < i ==> r@[j]@ == self.entries@[j].0@,
            decreases n - i,
        {
            r.push(self.entries[i].0.clone());
            i = i + 1;
        }
        proof {
            assert forall|k: Seq<char>| self@.dom().contains(k) implies exists|i: int|
                0 <= i < r@.len() && #[trigger] r@[i]@ == k by {
                lemma_str_map_of_contains(self.entries@, k);
                let i = choose|i: int|
                    0 <= i < self.entries@.len() && self.entries@[i].0@ == k;
                assert(r@[i]@ == k);
            }
            assert forall|k: Seq<char>|
                (exists|i: int| 0 <= i < r@.len() && #[trigger] r@[i]@ == k)
                    implies self@.dom().contains(k) by {
                let i = choose|i: int| 0 <= i < r@.len() && r@[i]@ == k;
                assert(self.entries@[i].0@ == k);
                lemma_str_map_of_contains(self.entries@, k);
            }
        }
        r
    }

    /// How many entries are stored; the same as the domain's size.
    pub closed spec fn entries_len(&self) -> nat {
        self.entries@.len()
    }

    /// How many names are mapped.
    pub fn len(&self) -> (n: usize)
        requires
            self.wf(),
        ensures
            n == self@.dom().len(),
    {
        proof {
            lemma_str_map_of_len(self.entries@);
        }
        self.entries.len()
    }

    /// Removes the entry for `name` if present, returning its value.
    pub fn remove(&mut self, name: &str) -> (r: Option<V>)
        requires
            old(self).wf(),
        ensures
            final(self).wf(),
            final(self)@ == old(self)@.remove(name@),
            match r {
                Some(v) => old(self)@.dom().contains(name@) && v == old(self)@[name@],
                None => !old(self)@.dom().contains(name@),
            },
    {
        match self.index_of(name) {
            Some(i) => {
                proof {
                    lemma_str_map_of_get(self.entries@, i as int);
                    lemma_str_map_of_remove(self.entries@, i as int);
                }
                let (_, v) = self.entries.remove(i);
                Some(v)
            },
            None => {
                proof {
                    assert(self@ =~= old(self)@.remove(name@));
                }
                None
            },
        }
    }
}

impl<V: Copy> StrMap<V> {
    /// A copy of this map, for maps of plain values.
    pub fn duplicate(&self) -> (r: StrMap<V>)
        requires
            self.wf(),
        ensures
            r.wf(),
            r@ == self@,
    {
        let n = self.entries.len();
        let mut entries: Vec<(String, V)> = Vec::new();
        let mut i: usize = 0;
        while i < n
            invariant
                n == self.entries@.len(),
                i <= n,
                entries@.len() == i,
                forall|j: int| 0 <= j < i ==> entries@[j].0@ == self.entries@[j].0@
                    && entries@[j].1 == self.entries@[j].1,
            decreases n - i,
        {
            let name = self.entries[i].0.clone();
            let v = self.entries[i].1;
            entries.push((name, v));
            i = i + 1;
        }
        let r = StrMap { entries };
        proof {
            lemma_str_map_congruent(r.entries@, self.entries@);
        }
        r
    }
}

proof fn lemma_str_map_congruent<V>(a: Seq<(String, V)>, b: Seq<(String, V)>)
    requires
        a.len() == b.len(),
        forall|i: int| 0 <= i < a.len() ==> a[i].0@ == b[i].0@ && a[i].1 == b[i].1,
    ensures
        str_map_of(a) == str_map_of(b),
        distinct_entry_names(b) ==> distinct_entry_names(a),
    decreases a.len(),
{
    if a.len() > 0 {
        assert(forall|i: int|
            0 <= i < a.drop_last().len() ==> a.drop_last()[i].0@ == b.drop_last()[i].0@
                && a.drop_last()[i].1 == b.drop_last()[i].1);
        lemma_str_map_congruent(a.drop_last(), b.drop_last());
        assert(str_map_of(a) =~= str_map_of(b));
    } else {
        assert(str_map_of(a) =~= str_map_of(b));
    }
}

} // verus!
