//! A finite map keyed by strings, with a mathematical map as its view.
use crate::text::str_eq;
use vstd::prelude::*;

verus! {

/// A finite map from strings to values, kept as a list of entries in which
/// no key occurs twice.
pub struct StringMap<V: View> {
    entries: Vec<(String, V)>,
}

proof fn lemma_index_of<A>(s: Seq<A>, x: A)
    requires
        s.contains(x),
    ensures
        0 <= s.index_of(x) < s.len(),
        s[s.index_of(x)] == x,
{
}

proof fn lemma_index_of_unique<A>(s: Seq<A>, i: int)
    requires
        s.no_duplicates(),
        0 <= i < s.len(),
    ensures
        s.index_of(s[i]) == i,
{
    assert(s.contains(s[i]));
    lemma_index_of(s, s[i]);
}

/// The ids of a list of entries.
pub open spec fn entry_ids<V>(entries: Seq<(String, V)>) -> Seq<Seq<char>> {
    entries.map_values(|e: (String, V)| e.0@)
}

impl<V: View> View for StringMap<V> {
    type V = Map<Seq<char>, V::V>;

    closed spec fn view(&self) -> Map<Seq<char>, V::V> {
        Map::new(
            |id: Seq<char>| entry_ids(self.entries@).contains(id),
            |id: Seq<char>|
                self.entries@[entry_ids(self.entries@).index_of(id)].1@,
        )
    }
}

impl<V: View> StringMap<V> {
    #[verifier::type_invariant]
    spec fn inv(self) -> bool {
        entry_ids(self.entries@).no_duplicates()
    }

    /// The empty map.
    pub fn new() -> (r: Self)
        ensures
            r@ == Map::<Seq<char>, V::V>::empty(),
    {
        let r = StringMap { entries: Vec::new() };
        assert(r@ =~= Map::<Seq<char>, V::V>::empty()) by {
            assert(entry_ids(r.entries@) =~= Seq::<Seq<char>>::empty());
        }
        r
    }

    /// The number of keys.
    pub fn len(&self) -> (r: usize)
        ensures
            r as nat == self@.len(),
    {
        proof {
            use_type_invariant(self);
            self.lemma_dom_len();
        }
        self.entries.len()
    }

    proof fn lemma_dom_len(&self)
        requires
            entry_ids(self.entries@).no_duplicates(),
        ensures
            self@.dom().finite(),
            self@.len() == self.entries@.len(),
    {
        let ids = entry_ids(self.entries@);
        assert(self@.dom() =~= ids.to_set());
        ids.unique_seq_to_set();
    }

    /// The position of `id`, if present.
    fn find(&self, id: &str) -> (r: Option<usize>)
        ensures
            r is Some <==> self@.contains_key(id@),
            r matches Some(i) ==> i < self.entries@.len() && self.entries@[i as int].0@ == id@,
    {
        let mut i: usize = 0;
        while i < self.entries.len()
            invariant
                i <= self.entries@.len(),
                forall|j: int| 0 <= j < i ==> self.entries@[j].0@ != id@,
            decreases self.entries@.len() - i,
        {
            if str_eq(self.entries[i].0.as_str(), id) {
                assert(entry_ids(self.entries@)[i as int] == id@);
                return Some(i);
            }
            i = i + 1;
        }
        assert(!entry_ids(self.entries@).contains(id@)) by {
            if entry_ids(self.entries@).contains(id@) {
                let k = choose|k: int| 0 <= k < entry_ids(self.entries@).len() && entry_ids(self.entries@)[k] == id@;
                assert(self.entries@[k].0@ == id@);
            }
        }
        None
    }

    /// The value under `id`.
    pub fn get(&self, id: &str) -> (r: Option<&V>)
        ensures
            r is Some <==> self@.contains_key(id@),
            r matches Some(s) ==> s@ == self@[id@],
    {
        proof {
            use_type_invariant(self);
        }
        match self.find(id) {
            Some(i) => {
                proof {
                    let ids = entry_ids(self.entries@);
                    assert(ids[i as int] == id@);
                    lemma_index_of_unique(ids, i as int);
                }
                Some(&self.entries[i].1)
            },
            None => None,
        }
    }

    /// Puts `server` under `id`, replacing any earlier value.
    pub fn insert(&mut self, id: String, server: V)
        ensures
            final(self)@ == old(self)@.insert(id@, server@),
    {
        proof {
            use_type_invariant(&*self);
        }
        let ghost old_view = self@;
        match self.find(id.as_str()) {
            Some(i) => {
                let ghost ids = entry_ids(self.entries@);
                let mut entries: Vec<(String, V)> = Vec::new();
                std::mem::swap(&mut entries, &mut self.entries);
                entries.set(i, (id, server));
                proof {
                    assert(entry_ids(entries@) =~= ids);
                }
                self.entries = entries;
                proof {
                    assert(entry_ids(self.entries@) =~= ids);
                    assert(self@ =~= old_view.insert(ids[i as int], server@)) by {
                        assert forall|k: Seq<char>| #[trigger] self@.contains_key(k) implies
                            self@[k] == old_view.insert(ids[i as int], server@)[k] by {
                            lemma_index_of(ids, k);
                            if k == ids[i as int] {
                                lemma_index_of_unique(ids, i as int);
                            }
                        }
                    }
                }
            },
            None => {
                let ghost ids = entry_ids(self.entries@);
                let ghost key = id@;
                let mut entries: Vec<(String, V)> = Vec::new();
                std::mem::swap(&mut entries, &mut self.entries);
                entries.push((id, server));
                proof {
                    assert(entry_ids(entries@) =~= ids.push(key));
                }
                self.entries = entries;
                proof {
                    assert(entry_ids(self.entries@) =~= ids.push(key));
                    assert(entry_ids(self.entries@).no_duplicates());
                    assert(self@ =~= old_view.insert(key, server@)) by {
                        assert forall|k: Seq<char>| #[trigger] self@.contains_key(k) implies
                            self@[k] == old_view.insert(key, server@)[k] by {
                            let nids = entry_ids(self.entries@);
                            if k != key {
                                lemma_index_of(ids, k);
                                lemma_index_of_unique(nids, ids.index_of(k));
                                assert(nids[ids.index_of(k)] == k);
                            } else {
                                lemma_index_of_unique(nids, ids.len() as int);
                            }
                        }
                        assert forall|k: Seq<char>| #[trigger] old_view.insert(key, server@).contains_key(k)
                            implies self@.contains_key(k) by {
                            let nids = entry_ids(self.entries@);
                            if k != key {
                                lemma_index_of(ids, k);
                                assert(nids[ids.index_of(k)] == k);
                            } else {
                                assert(nids[ids.len() as int] == key);
                            }
                        }
                    }
                }
            },
        }
    }

    /// Removes the value under `id`, returning it.
    pub fn remove(&mut self, id: &str) -> (r: Option<V>)
        ensures
            final(self)@ == old(self)@.remove(id@),
            r is Some <==> old(self)@.contains_key(id@),
            r matches Some(s) ==> s@ == old(self)@[id@],
    {
        proof {
            use_type_invariant(&*self);
        }
        let ghost old_view = self@;
        let ghost ids = entry_ids(self.entries@);
        match self.find(id) {
            Some(i) => {
                let mut entries: Vec<(String, V)> = Vec::new();
                std::mem::swap(&mut entries, &mut self.entries);
                let (_, server) = entries.remove(i);
                proof {
                    assert(entry_ids(entries@) =~= ids.remove(i as int));
                    lemma_index_of_unique(ids, i as int);
                }
                self.entries = entries;
                proof {
                    let nids = entry_ids(self.entries@);
                    assert(nids =~= ids.remove(i as int));
                    assert(nids.no_duplicates());
                    assert(self@ =~= old_view.remove(id@)) by {
                        assert forall|k: Seq<char>| #[trigger] self@.contains_key(k) implies
                            self@[k] == old_view[k] by {
                            lemma_index_of(nids, k);
                            let p = nids.index_of(k);
                            if p < i {
                                assert(ids[p] == k);
                                lemma_index_of_unique(ids, p);
                            } else {
                                assert(ids[p + 1] == k);
                                lemma_index_of_unique(ids, p + 1);
                            }
                        }
                        assert forall|k: Seq<char>| #[trigger] old_view.remove(id@).contains_key(k)
                            implies self@.contains_key(k) by {
                            lemma_index_of(ids, k);
                            let q = ids.index_of(k);
                            if q < i {
                                assert(nids[q] == k);
                            } else {
                                assert(q != i);
                                assert(nids[q - 1] == k);
                            }
                        }
                    }
                }
                Some(server)
            },
            None => {
                assert(self@ =~= old_view.remove(id@));
                None
            },
        }
    }

    /// All entries, as (id, server) pairs.
    pub fn entries(&self) -> (r: &Vec<(String, V)>)
        ensures
            forall|i: int|
                0 <= i < r@.len() ==> self@.contains_key(#[trigger] r@[i].0@) && self@[r@[i].0@]
                    == r@[i].1@,
            forall|k: Seq<char>| #[trigger] self@.contains_key(k) ==> entry_ids(r@).contains(k),
            entry_ids(r@).no_duplicates(),
            r@.len() == self@.len(),
    {
        proof {
            use_type_invariant(self);
            self.lemma_dom_len();
            let ids = entry_ids(self.entries@);
            assert forall|i: int| 0 <= i < self.entries@.len() implies self@.contains_key(
                #[trigger] self.entries@[i].0@,
            ) && self@[self.entries@[i].0@] == self.entries@[i].1@ by {
                assert(ids[i] == self.entries@[i].0@);
                lemma_index_of_unique(ids, i);
            }
        }
        &self.entries
    }
}


} // verus!
