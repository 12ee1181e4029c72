//! A string-keyed association map with unique keys, backed by a vector of
//! pairs and viewed as a `Map` from key character sequences to value views.
//! The settings document and the mutation buffer are both built on it.

use vstd::prelude::*;

verus! {

/// An association list from string keys to values; keys are unique.
pub struct StrMap<V> {
    pub pairs: Vec<(String, V)>,
}

/// The map denoted by an association list: later entries win (well-formed
/// lists have no repeated key, so the order never matters).
pub open spec fn assoc_view<V: View>(s: Seq<(String, V)>) -> Map<Seq<char>, V::V>
    decreases s.len(),
{
    if s.len() == 0 {
        Map::empty()
    } else {
        assoc_view(s.drop_last()).insert(s.last().0@, s.last().1@)
    }
}

impl<V: View> StrMap<V> {
    /// The keys, as character sequences, in storage order.
    pub open spec fn key_seq(self) -> Seq<Seq<char>> {
        self.pairs@.map_values(|p: (String, V)| p.0@)
    }

    /// Well-formed: no key occurs twice.
    pub open spec fn wf(self) -> bool {
        self.key_seq().no_duplicates()
    }
}

impl<V: View> View for StrMap<V> {
    type V = Map<Seq<char>, V::V>;

    open spec fn view(&self) -> Map<Seq<char>, V::V> {
        assoc_view(self.pairs@)
    }
}

/// A key under which no entry is stored is not in the denoted map.
pub proof fn lemma_assoc_view_absent<V: View>(s: Seq<(String, V)>, k: Seq<char>)
    requires
        forall|i: int| 0 <= i < s.len() ==> #[trigger] s[i].0@ != k,
    ensures
        !assoc_view(s).dom().contains(k),
    decreases s.len(),
{
    if s.len() > 0 {
        lemma_assoc_view_absent(s.drop_last(), k);
    }
}

/// Every stored entry of a well-formed list is in the denoted map, with its
/// own value.
pub proof fn lemma_assoc_view_index<V: View>(s: Seq<(String, V)>, i: int)
    requires
        0 <= i < s.len(),
        s.map_values(|p: (String, V)| p.0@).no_duplicates(),
    ensures
        assoc_view(s).dom().contains(s[i].0@),
        assoc_view(s)[s[i].0@] == s[i].1@,
    decreases s.len(),
{
    let keys = s.map_values(|p: (String, V)| p.0@);
    if i == s.len() - 1 {
    } else {
        assert(s.drop_last().map_values(|p: (String, V)| p.0@) =~= keys.drop_last());
        lemma_assoc_view_index(s.drop_last(), i);
        assert(keys[i] != keys[s.len() - 1]);
    }
}

/// The domain of the denoted map is exactly the set of stored keys.
pub proof fn lemma_assoc_view_dom<V: View>(s: Seq<(String, V)>)
    ensures
        assoc_view(s).dom() == s.map_values(|p: (String, V)| p.0@).to_set(),
    decreases s.len(),
{
    let keys = s.map_values(|p: (String, V)| p.0@);
    if s.len() == 0 {
        assert(assoc_view(s).dom() =~= keys.to_set());
    } else {
        lemma_assoc_view_dom(s.drop_last());
        assert(s.drop_last().map_values(|p: (String, V)| p.0@) =~= keys.drop_last());
        assert forall|k: Seq<char>| keys.to_set().contains(k) implies assoc_view(
            s,
        ).dom().contains(k) by {
            let i = choose|i: int| 0 <= i < keys.len() && keys[i] == k;
            if i < s.len() - 1 {
                assert(keys.drop_last()[i] == k);
                assert(keys.drop_last().to_set().contains(k));
            }
        }
        assert forall|k: Seq<char>| assoc_view(s).dom().contains(k) implies keys.to_set().contains(
            k,
        ) by {
            if k == s.last().0@ {
                assert(keys[s.len() - 1] == k);
            } else {
                let i = choose|i: int|
                    0 <= i < keys.drop_last().len() && keys.drop_last()[i] == k;
                assert(keys[i] == k);
            }
        }
        assert(assoc_view(s).dom() =~= keys.to_set());
    }
}

/// Removing the entry at index `i` removes exactly its key from the map.
proof fn lemma_assoc_view_remove<V: View>(s: Seq<(String, V)>, i: int)
    requires
        0 <= i < s.len(),
        s.map_values(|p: (String, V)| p.0@).no_duplicates(),
    ensures
        assoc_view(s.remove(i)) == assoc_view(s).remove(s[i].0@),
    decreases s.len(),
{
    let keys = s.map_values(|p: (String, V)| p.0@);
    assert(s.drop_last().map_values(|p: (String, V)| p.0@) =~= keys.drop_last());
    if i == s.len() - 1 {
        assert(s.remove(i) =~= s.drop_last());
        assert forall|j: int| 0 <= j < s.drop_last().len() implies #[trigger] s.drop_last()[j].0@
            != s[i].0@ by {
            assert(keys[j] != keys[i]);
        }
        lemma_assoc_view_absent(s.drop_last(), s[i].0@);
        assert(assoc_view(s.drop_last()).insert(s.last().0@, s.last().1@).remove(s[i].0@)
            =~= assoc_view(s.drop_last()));
    } else {
        lemma_assoc_view_remove(s.drop_last(), i);
        assert(s.remove(i).drop_last() =~= s.drop_last().remove(i));
        assert(s.remove(i).last() == s.last());
        assert(keys[i] != keys[s.len() - 1]);
        assert(assoc_view(s.drop_last()).remove(s[i].0@).insert(s.last().0@, s.last().1@)
            =~= assoc_view(s.drop_last()).insert(s.last().0@, s.last().1@).remove(s[i].0@));
    }
}

impl<V: View> StrMap<V> {
    /// An empty map.
    pub fn new() -> (r: Self)
        ensures
            r@ == Map::<Seq<char>, V::V>::empty(),
            r.wf(),
            r.pairs@.len() == 0,
    {
        StrMap { pairs: Vec::new() }
    }

    /// The position of the entry stored under `k`, if any.
    fn find_index(&self, k: &String) -> (r: Option<usize>)
        ensures
            match r {
                Some(i) => i < self.pairs@.len() && self.pairs@[i as int].0@ == k@,
                None => forall|i: int|
                    0 <= i < self.pairs@.len() ==> #[trigger] self.pairs@[i].0@ != k@,
            },
    {
        let mut i: usize = 0;
        while i < self.pairs.len()
            invariant
                i <= self.pairs@.len(),
                forall|j: int| 0 <= j < i ==> #[trigger] self.pairs@[j].0@ != k@,
            decreases self.pairs@.len() - i,
        {
            if self.pairs[i].0 == *k {
                return Some(i);
            }
            i += 1;
        }
        None
    }

    /// Whether an entry is stored under `k`.
    pub fn contains_key(&self, k: &String) -> (r: bool)
        requires
            self.wf(),
        ensures
            r == self@.dom().contains(k@),
    {
        let r = self.find_index(k);
        proof {
            match r {
                Some(i) => lemma_assoc_view_index(self.pairs@, i as int),
                None => lemma_assoc_view_absent(self.pairs@, k@),
            }
        }
        r.is_some()
    }

    /// The value stored under `k`, if any.
    pub fn get(&self, k: &String) -> (r: Option<&V>)
        requires
            self.wf(),
        ensures
            match r {
                Some(v) => self@.dom().contains(k@) && v@ == self@[k@] && exists|i: int|
                    0 <= i < self.pairs@.len() && *v == #[trigger] self.pairs@[i].1,
                None => !self@.dom().contains(k@),
            },
    {
        match self.find_index(k) {
            Some(i) => {
                proof {
                    lemma_assoc_view_index(self.pairs@, i as int);
                }
                Some(&self.pairs[i].1)
            },
            None => {
                proof {
                    lemma_assoc_view_absent(self.pairs@, k@);
                }
                None
            },
        }
    }

    /// Removes the entry stored under `k`, returning its value.
    pub fn remove_key(&mut self, k: &String) -> (r: Option<V>)
        requires
            old(self).wf(),
        ensures
            final(self).wf(),
            final(self)@ == old(self)@.remove(k@),
            match r {
                Some(v) => old(self)@.dom().contains(k@) && v@ == old(self)@[k@] && exists|i: int|
                    0 <= i < old(self).pairs@.len() && v == #[trigger] old(self).pairs@[i].1,
                None => !old(self)@.dom().contains(k@) && final(self)@ == old(self)@,
            },
            forall|i: int|
                0 <= i < final(self).pairs@.len() ==> exists|j: int|
                    0 <= j < old(self).pairs@.len() && #[trigger] final(self).pairs@[i] == old(
                        self,
                    ).pairs@[j],
    {
        match self.find_index(k) {
            Some(i) => {
                proof {
                    lemma_assoc_view_index(self.pairs@, i as int);
                    lemma_assoc_view_remove(self.pairs@, i as int);
                    let keys = self.pairs@.map_values(|p: (String, V)| p.0@);
                    assert(self.pairs@.remove(i as int).map_values(|p: (String, V)| p.0@)
                        =~= keys.remove(i as int));
                }
                let (_, v) = self.pairs.remove(i);
                Some(v)
            },
            None => {
                proof {
                    lemma_assoc_view_absent(self.pairs@, k@);
                    assert(old(self)@.remove(k@) =~= old(self)@);
                }
                None
            },
        }
    }

    /// Stores `v` under `k`, replacing any earlier entry for `k`.
    pub fn insert(&mut self, k: String, v: V)
        requires
            old(self).wf(),
        ensures
            final(self).wf(),
            final(self)@ == old(self)@.insert(k@, v@),
            forall|i: int|
                0 <= i < final(self).pairs@.len() ==> (#[trigger] final(self).pairs@[i].1 == v
                    || exists|j: int|
                    0 <= j < old(self).pairs@.len() && final(self).pairs@[i].1 == #[trigger] old(
                        self,
                    ).pairs@[j].1),
    {
        self.remove_key(&k);
        let ghost mid = self.pairs@;
        self.pairs.push((k, v));
        proof {
            assert(self.pairs@.drop_last() =~= mid);
            let keys = self.pairs@.map_values(|p: (String, V)| p.0@);
            let midkeys = mid.map_values(|p: (String, V)| p.0@);
            assert(keys.drop_last() =~= midkeys);
            lemma_assoc_view_dom(mid);
            assert(keys[keys.len() - 1] == k@);
            assert forall|a: int, b: int| 0 <= a < b < keys.len() implies #[trigger] keys[a]
                != #[trigger] keys[b] by {
                assert(keys[a] == midkeys[a]);
                if b < keys.len() - 1 {
                    assert(keys[b] == midkeys[b]);
                } else {
                    if midkeys[a] == k@ {
                        assert(midkeys.to_set().contains(k@));
                    }
                }
            }
            assert(keys.no_duplicates());
        }
    }

    /// The stored keys, cloned, in storage order.
    pub fn keys(&self) -> (r: Vec<String>)
        ensures
            r@.map_values(|x: String| x@) == self.key_seq(),
    {
        let mut r: Vec<String> = Vec::new();
        let mut i: usize = 0;
        while i < self.pairs.len()
            invariant
                i <= self.pairs@.len(),
                r@.len() == i,
                forall|j: int| 0 <= j < i ==> #[trigger] r@[j]@ == self.pairs@[j].0@,
            decreases self.pairs@.len() - i,
        {
            r.push(self.pairs[i].0.clone());
            i += 1;
        }
        proof {
            assert(r@.map_values(|x: String| x@) =~= self.key_seq());
        }
        r
    }

    /// The number of stored entries.
    pub fn len(&self) -> (r: usize)
        ensures
            r == self.pairs@.len(),
    {
        self.pairs.len()
    }
}

} // verus!
