//! A map keyed by names, keeping its keys in insertion order.
use vstd::prelude::*;
use crate::text::str_eq;

verus! {

/// The map that a list of (name, value) pairs stands for; a later pair for
/// the same name wins.
pub open spec fn pairs_to_map<V>(s: Seq<(String, V)>) -> Map<Seq<char>, V>
    decreases s.len(),
{
    if s.len() == 0 {
        Map::empty()
    } else {
        pairs_to_map(s.drop_last()).insert(s.last().0@, s.last().1)
    }
}

/// The names of a list of pairs.
pub open spec fn pair_names<V>(s: Seq<(String, V)>) -> Seq<Seq<char>> {
    s.map_values(|p: (String, V)| p.0@)
}

proof fn lemma_map_contains<V>(s: Seq<(String, V)>, k: Seq<char>)
    ensures
        pairs_to_map(s).contains_key(k) <==> pair_names(s).contains(k),
    decreases s.len(),
{
    if s.len() > 0 {
        lemma_map_contains(s.drop_last(), k);
        assert(pair_names(s.drop_last()) =~= pair_names(s).drop_last());
        if pair_names(s).contains(k) && k != s.last().0@ {
            let i = choose|i: int| 0 <= i < s.len() && pair_names(s)[i] == k;
            assert(i < s.len() - 1);
            assert(pair_names(s.drop_last())[i] == k);
        }
        if pair_names(s.drop_last()).contains(k) {
            let i = choose|i: int| 0 <= i < s.len() - 1 && pair_names(s.drop_last())[i] == k;
            assert(pair_names(s)[i] == k);
        }
        assert(pair_names(s)[s.len() - 1] == s.last().0@);
    }
}

proof fn lemma_map_index<V>(s: Seq<(String, V)>, i: int)
    requires
        0 <= i < s.len(),
        pair_names(s).no_duplicates(),
    ensures
        pairs_to_map(s).contains_key(s[i].0@),
        pairs_to_map(s)[s[i].0@] == s[i].1,
    decreases s.len(),
{
    if i < s.len() - 1 {
        assert(pair_names(s.drop_last()) =~= pair_names(s).drop_last());
        lemma_map_index(s.drop_last(), i);
        assert(pair_names(s)[i] != pair_names(s)[s.len() - 1]);
    }
}

proof fn lemma_map_update<V>(s: Seq<(String, V)>, i: int, p: (String, V))
    requires
        0 <= i < s.len(),
        p.0@ == s[i].0@,
        pair_names(s).no_duplicates(),
    ensures
        pairs_to_map(s.update(i, p)) == pairs_to_map(s).insert(p.0@, p.1),
        pair_names(s.update(i, p)) == pair_names(s),
    decreases s.len(),
{
    assert(pair_names(s.update(i, p)) =~= pair_names(s));
    let u = s.update(i, p);
    if i == s.len() - 1 {
        assert(u.drop_last() =~= s.drop_last());
        assert(pairs_to_map(s).insert(p.0@, p.1) =~= pairs_to_map(s.drop_last()).insert(p.0@, p.1));
    } else {
        assert(pair_names(s.drop_last()) =~= pair_names(s).drop_last());
        lemma_map_update(s.drop_last(), i, p);
        assert(u.drop_last() =~= s.drop_last().update(i, p));
        assert(s.last().0@ != p.0@) by {
            assert(pair_names(s)[s.len() - 1] != pair_names(s)[i]);
        }
        assert(pairs_to_map(u) =~= pairs_to_map(s).insert(p.0@, p.1));
    }
}

/// A map from names to values; each name is listed once, in the order in
/// which it was first inserted.
#[derive(Debug, Clone)]
pub struct NameMap<V> {
    entries: Vec<(String, V)>,
}

impl<V> NameMap<V> {
    pub closed spec fn view(&self) -> Map<Seq<char>, V> {
        pairs_to_map(self.entries@)
    }

    /// The names, in insertion order.
    pub closed spec fn names(&self) -> Seq<Seq<char>> {
        pair_names(self.entries@)
    }

    /// The values, in the order of their names.
    pub closed spec fn values(&self) -> Seq<V> {
        self.entries@.map_values(|p: (String, V)| p.1)
    }

    pub closed spec fn wf(&self) -> bool {
        self.names().no_duplicates()
    }

    pub proof fn lemma_view(&self)
        requires
            self.wf(),
        ensures
            forall|k: Seq<char>| #[trigger] self.view().contains_key(k) <==> self.names().contains(k),
            forall|i: int| 0 <= i < self.names().len() ==> self.view()[#[trigger] self.names()[i]] == self.values()[i],
            self.names().len() == self.values().len(),
            self.view().dom().finite(),
            self.view().len() == self.names().len(),
    {
        assert forall|k: Seq<char>| #[trigger] self.view().contains_key(k) <==> self.names().contains(k) by {
            lemma_map_contains(self.entries@, k);
        }
        assert forall|i: int| 0 <= i < self.names().len() implies self.view()[#[trigger] self.names()[i]]
            == self.values()[i] by {
            lemma_map_index(self.entries@, i);
        }
        self.names().unique_seq_to_set();
        assert(self.view().dom() =~= self.names().to_set());
    }

    /// Whether every name is listed once (always so for maps built by
    /// these methods).
    pub fn names_distinct(&self) -> (r: bool)
        ensures
            r == self.wf(),
    {
        let n = self.entries.len();
        let mut i: usize = 0;
        while i < n
            invariant
                n == self.entries@.len(),
                i <= n,
                forall|a: int, b: int| 0 <= a < b < n && a < i ==> self.names()[a] != self.names()[b],
            decreases n - i,
        {
            let mut j: usize = i + 1;
            while j < n
                invariant
                    n == self.entries@.len(),
                    i < n,
                    i + 1 <= j <= n,
                    forall|a: int, b: int| 0 <= a < b < n && a < i ==> self.names()[a] != self.names()[b],
                    forall|b: int| i < b < j ==> self.names()[i as int] != self.names()[b],
                decreases n - j,
            {
                if str_eq(self.entries[i].0.as_str(), self.entries[j].0.as_str()) {
                    assert(self.names()[i as int] == self.names()[j as int]);
                    return false;
                }
                j += 1;
            }
            i += 1;
        }
        true
    }

    pub fn new() -> (r: Self)
        ensures
            r.wf(),
            r.view() == Map::<Seq<char>, V>::empty(),
            r.names().len() == 0,
    {
        let r = NameMap { entries: Vec::new() };
        assert(r.names() =~= Seq::<Seq<char>>::empty());
        r
    }

    pub fn len(&self) -> (r: usize)
        requires
            self.wf(),
        ensures
            r == self.view().len(),
            r == self.names().len(),
    {
        proof {
            self.lemma_view();
        }
        self.entries.len()
    }

    fn position(&self, k: &str) -> (r: Option<usize>)
        ensures
            r matches Some(i) ==> i < self.names().len() && self.names()[i as int] == k@,
            r.is_none() ==> !self.names().contains(k@),
    {
        let mut i: usize = 0;
        while i < self.entries.len()
            invariant
                i <= self.entries@.len(),
                forall|j: int| 0 <= j < i ==> self.entries@[j].0@ != k@,
            decreases self.entries@.len() - i,
        {
            if str_eq(self.entries[i].0.as_str(), k) {
                return Some(i);
            }
            i += 1;
        }
        assert(!self.names().contains(k@)) by {
            if self.names().contains(k@) {
                let j = choose|j: int| 0 <= j < self.names().len() && self.names()[j] == k@;
                assert(self.entries@[j].0@ == k@);
            }
        }
        None
    }

    pub fn contains_key(&self, k: &str) -> (r: bool)
        requires
            self.wf(),
        ensures
            r == self.view().contains_key(k@),
    {
        proof {
            self.lemma_view();
        }
        self.position(k).is_some()
    }

    pub fn get(&self, k: &str) -> (r: Option<&V>)
        requires
            self.wf(),
        ensures
            self.view().contains_key(k@) ==> r == Some(&self.view()[k@]),
            !self.view().contains_key(k@) ==> r.is_none(),
    {
        proof {
            self.lemma_view();
        }
        match self.position(k) {
            Some(i) => Some(&self.entries[i].1),
            None => None,
        }
    }

    /// Puts `v` under `k`: in place when `k` is present, else last.
    pub fn insert(&mut self, k: String, v: V)
        requires
            old(self).wf(),
        ensures
            final(self).wf(),
            final(self).view() == old(self).view().insert(k@, v),
            old(self).names().contains(k@) ==> final(self).names() == old(self).names(),
            !old(self).names().contains(k@) ==> final(self).names() == old(self).names().push(k@),
    {
        let ghost s = self.entries@;
        match self.position(k.as_str()) {
            Some(i) => {
                let ghost p = (k, v);
                self.entries.remove(i);
                self.entries.insert(i, (k, v));
                proof {
                    assert(self.entries@ =~= s.update(i as int, p));
                    lemma_map_update(s, i as int, p);
                }
            },
            None => {
                let ghost kv = k@;
                self.entries.push((k, v));
                proof {
                    assert(pair_names(self.entries@) =~= pair_names(s).push(kv));
                    assert(self.entries@.drop_last() =~= s);
                    assert(self.names().no_duplicates()) by {
                        assert forall|a: int, b: int| 0 <= a < b < self.names().len() implies self.names()[a]
                            != self.names()[b] by {
                            if b == s.len() {
                                assert(pair_names(s).contains(pair_names(s)[a]));
                            }
                        }
                    }
                }
            },
        }
    }

    /// The values, in the order of their names.
    pub fn value_refs(&self) -> (r: Vec<&V>)
        ensures
            r@.len() == self.values().len(),
            forall|i: int| 0 <= i < r@.len() ==> *r@[i] == self.values()[i],
    {
        let mut out: Vec<&V> = Vec::new();
        let mut i: usize = 0;
        while i < self.entries.len()
            invariant
                i <= self.entries@.len(),
                out@.len() == i,
                forall|j: int| 0 <= j < i ==> *out@[j] == self.entries@[j].1,
            decreases self.entries@.len() - i,
        {
            out.push(&self.entries[i].1);
            i += 1;
        }
        out
    }
}

impl<T> NameMap<Vec<T>> {
    /// Appends `item` to the list under `k`, starting an empty list first
    /// when `k` is absent.
    pub fn push_item(&mut self, k: String, item: T)
        requires
            old(self).wf(),
        ensures
            final(self).wf(),
            final(self).view().contains_key(k@),
            final(self).view()[k@]@ == (if old(self).view().contains_key(k@) {
                old(self).view()[k@]@
            } else {
                Seq::empty()
            }).push(item),
            final(self).view().remove(k@) == old(self).view().remove(k@),
            old(self).names().contains(k@) ==> final(self).names() == old(self).names(),
            !old(self).names().contains(k@) ==> final(self).names() == old(self).names().push(k@),
    {
        proof {
            self.lemma_view();
        }
        match self.position(k.as_str()) {
            Some(i) => {
                let ghost s = self.entries@;
                let (name, mut items) = self.entries.remove(i);
                items.push(item);
                let ghost p = (name, items);
                self.entries.insert(i, (name, items));
                proof {
                    assert(self.entries@ =~= s.update(i as int, p));
                    lemma_map_update(s, i as int, p);
                    lemma_map_index(s, i as int);
                    assert(pairs_to_map(s).insert(p.0@, p.1).remove(k@) =~= pairs_to_map(s).remove(k@));
                }
            },
            None => {
                let mut items: Vec<T> = Vec::new();
                items.push(item);
                let ghost kv = k@;
                let ghost items_v = items;
                self.insert(k, items);
                proof {
                    assert(items_v@ =~= Seq::<T>::empty().push(item));
                    assert(old(self).view().insert(kv, items_v).remove(kv) =~= old(self).view().remove(kv));
                }
            },
        }
    }
}

impl<W> NameMap<NameMap<W>> {
    /// Whether every inner map is well formed.
    pub open spec fn inner_wf(&self) -> bool {
        forall|k: Seq<char>| #[trigger] self@.contains_key(k) ==> self@[k].wf()
    }

    /// Puts `w` under `inner` in the map under `outer`, starting an empty
    /// inner map first when `outer` is absent.
    pub fn insert_nested(&mut self, outer: String, inner: String, w: W)
        requires
            old(self).wf(),
            old(self).inner_wf(),
        ensures
            final(self).wf(),
            final(self).inner_wf(),
            final(self)@.contains_key(outer@),
            final(self)@[outer@]@ == (if old(self)@.contains_key(outer@) {
                old(self)@[outer@]@
            } else {
                Map::empty()
            }).insert(inner@, w),
            final(self)@.remove(outer@) == old(self)@.remove(outer@),
    {
        proof {
            self.lemma_view();
        }
        match self.position(outer.as_str()) {
            Some(i) => {
                let ghost s = self.entries@;
                proof {
                    lemma_map_index(s, i as int);
                }
                let (name, mut map) = self.entries.remove(i);
                map.insert(inner, w);
                let ghost p = (name, map);
                self.entries.insert(i, (name, map));
                proof {
                    assert(self.entries@ =~= s.update(i as int, p));
                    lemma_map_update(s, i as int, p);
                    assert(pairs_to_map(s).insert(p.0@, p.1).remove(outer@) =~= pairs_to_map(s).remove(outer@));
                }
            },
            None => {
                let mut map: NameMap<W> = NameMap::new();
                map.insert(inner, w);
                let ghost kv = outer@;
                let ghost mv = map;
                self.insert(outer, map);
                proof {
                    assert(old(self)@.insert(kv, mv).remove(kv) =~= old(self)@.remove(kv));
                }
            },
        }
    }
}

} // verus!
