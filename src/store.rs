use vstd::prelude::*;
use crate::keys::{lemma_lex_irreflexive, lemma_lex_total, lemma_lex_transitive, lex_lt, name_lt, strictly_sorted};

verus! {

/// The map that loading a sequence of entries yields: each entry that decoded sets its
/// key, a later entry replacing an earlier one with the same key, and an entry that failed
/// to decode changes nothing.
pub open spec fn loaded_map<T>(loaded: Seq<(String, Option<T>)>) -> Map<Seq<char>, T>
    decreases loaded.len(),
{
    if loaded.len() == 0 {
        Map::empty()
    } else {
        let prev = loaded_map(loaded.drop_last());
        match loaded.last().1 {
            Some(v) => prev.insert(loaded.last().0@, v),
            None => prev,
        }
    }
}

pub open spec fn entry_keys<T>(entries: Seq<(String, T)>) -> Seq<Seq<char>> {
    entries.map_values(|e: (String, T)| e.0@)
}

/// The map that a list of pairs with distinct keys stands for.
pub open spec fn entries_map<T>(entries: Seq<(String, T)>) -> Map<Seq<char>, T> {
    Map::new(
        |k: Seq<char>| entry_keys(entries).contains(k),
        |k: Seq<char>| entries[key_index(entries, k)].1,
    )
}

/// An index at which `k` stands as a key, if there is one.
pub open spec fn key_index<T>(entries: Seq<(String, T)>, k: Seq<char>) -> int {
    choose|i: int| 0 <= i < entries.len() && entry_keys(entries)[i] == k
}

/// A collection of objects keyed by name, kept in lexicographic order of the keys.
pub struct ObjectStore<T> {
    entries: Vec<(String, T)>,
}

/// In a strictly sorted sequence, equal elements stand at the same index.
proof fn lemma_sorted_unique(s: Seq<Seq<char>>, i: int, j: int)
    requires
        strictly_sorted(s),
        0 <= i < s.len(),
        0 <= j < s.len(),
        s[i] == s[j],
    ensures
        i == j,
{
    lemma_lex_irreflexive(s[i]);
}

impl<T> ObjectStore<T> {
    pub closed spec fn entries_view(&self) -> Seq<(String, T)> {
        self.entries@
    }

    pub open spec fn keys(&self) -> Seq<Seq<char>> {
        entry_keys(self.entries_view())
    }

    pub open spec fn wf(&self) -> bool {
        strictly_sorted(self.keys())
    }

    /// The object stored under `k`, for each key present.
    pub open spec fn view(&self) -> Map<Seq<char>, T> {
        entries_map(self.entries_view())
    }

    proof fn lemma_view_at(&self, i: int)
        requires
            self.wf(),
            0 <= i < self.keys().len(),
        ensures
            self@.contains_key(self.keys()[i]),
            self@[self.keys()[i]] == self.entries_view()[i].1,
    {
        let k = self.keys()[i];
        let e = self.entries_view();
        assert(self.keys().contains(k));
        let j = key_index(e, k);
        lemma_sorted_unique(self.keys(), i, j);
        assert(entries_map(e).dom().contains(k));
        assert(entries_map(e)[k] == e[j].1);
    }

    pub fn new() -> (r: ObjectStore<T>)
        ensures
            r.wf(),
            r@ == Map::<Seq<char>, T>::empty(),
    {
        let r = ObjectStore { entries: Vec::new() };
        assert(r@ =~= Map::<Seq<char>, T>::empty());
        r
    }

    /// Stores `value` under `key`, replacing what was stored there.
    pub fn insert(&mut self, key: String, value: T)
        requires
            old(self).wf(),
        ensures
            final(self).wf(),
            final(self)@ == old(self)@.insert(key@, value),
    {
        let ghost ok = self.keys();
        let ghost oe = self.entries_view();
        let mut i: usize = 0;
        while i < self.entries.len() && name_lt(self.entries[i].0.as_str(), key.as_str())
            invariant
                self.entries_view() == oe,
                ok == entry_keys(oe),
                strictly_sorted(ok),
                i <= oe.len(),
                forall|j: int| 0 <= j < i ==> lex_lt(#[trigger] ok[j], key@),
            decreases oe.len() - i,
        {
            i = i + 1;
        }
        if i < self.entries.len() && self.entries[i].0 == key {
            assert(ok[i as int] == key@);
            self.entries[i] = (key, value);
            proof {
                let nk = self.keys();
                assert(nk =~= ok);
                assert forall|k: Seq<char>| #[trigger] self@.contains_key(k) == old(self)@.insert(key@, value).contains_key(k) by {
                    if k == key@ {
                        assert(nk.contains(k)) by { assert(nk[i as int] == k); };
                    }
                };
                assert forall|k: Seq<char>| self@.contains_key(k) implies #[trigger] self@[k] == old(self)@.insert(key@, value)[k] by {
                    let j = choose|j: int| 0 <= j < nk.len() && nk[j] == k;
                    self.lemma_view_at(j);
                    if j != i {
                        old(self).lemma_view_at(j);
                    } else {
                        assert(self.entries_view()[j].1 == value);
                    }
                };
                assert(self@ =~= old(self)@.insert(key@, value));
            }
            return;
        }
        proof {
            if i < ok.len() {
                lemma_lex_total(ok[i as int], key@);
            }
            assert forall|k: int| i <= k < ok.len() implies lex_lt(key@, #[trigger] ok[k]) by {
                if k > i {
                    lemma_lex_transitive(key@, ok[i as int], ok[k]);
                }
            };
        }
        self.entries.insert(i, (key, value));
        proof {
            let nk = self.keys();
            assert(nk =~= ok.insert(i as int, key@));
            assert forall|a: int, b: int| 0 <= a < b < nk.len() implies lex_lt(#[trigger] nk[a], #[trigger] nk[b]) by {
                if b < i {
                } else if a < i && b == i {
                } else if a < i && b > i {
                    assert(nk[b] == ok[b - 1]);
                } else if a == i {
                    assert(nk[b] == ok[b - 1]);
                } else {
                    assert(nk[a] == ok[a - 1]);
                    assert(nk[b] == ok[b - 1]);
                }
            };
            assert forall|k: Seq<char>| #[trigger] self@.contains_key(k) == old(self)@.insert(key@, value).contains_key(k) by {
                if nk.contains(k) {
                    let j = choose|j: int| 0 <= j < nk.len() && nk[j] == k;
                    if j < i {
                        assert(ok[j] == k);
                    } else if j > i {
                        assert(ok[j - 1] == k);
                    }
                }
                if ok.contains(k) {
                    let j = choose|j: int| 0 <= j < ok.len() && ok[j] == k;
                    if j < i {
                        assert(nk[j] == k);
                    } else {
                        assert(nk[j + 1] == k);
                    }
                }
                if k == key@ {
                    assert(nk[i as int] == k);
                }
            };
            assert forall|k: Seq<char>| self@.contains_key(k) implies #[trigger] self@[k] == old(self)@.insert(key@, value)[k] by {
                let j = choose|j: int| 0 <= j < nk.len() && nk[j] == k;
                self.lemma_view_at(j);
                if j < i {
                    old(self).lemma_view_at(j);
                    lemma_lex_irreflexive(k);
                } else if j > i {
                    old(self).lemma_view_at(j - 1);
                    lemma_lex_irreflexive(k);
                }
            };
            assert(self@ =~= old(self)@.insert(key@, value));
        }
    }

    /// The stored pairs, in lexicographic order of their keys.
    pub fn into_vec(self) -> (r: Vec<(String, T)>)
        ensures
            r@ == self.entries_view(),
    {
        self.entries
    }
}

/// Gathers the outcome of loading each entry of a directory, in the order the entries were
/// read, into pairs sorted by key. Entries that failed to load are left out; where two
/// entries share a key, the later one is kept.
pub fn load_all_objects<T>(loaded: Vec<(String, Option<T>)>) -> (r: Vec<(String, T)>)
    ensures
        strictly_sorted(entry_keys(r@)),
        entries_map(r@) == loaded_map(loaded@),
{
    let ghost all = loaded@;
    let total = loaded.len();
    let mut rest = loaded;
    let mut store: ObjectStore<T> = ObjectStore::new();
    let mut i: usize = 0;
    while rest.len() > 0
        invariant
            i <= all.len(),
            all.len() == total,
            rest@ == all.subrange(i as int, all.len() as int),
            store.wf(),
            store@ == loaded_map(all.subrange(0, i as int)),
        decreases rest@.len(),
    {
        let (key, outcome) = rest.remove(0);
        proof {
            assert(all.subrange(0, i + 1).drop_last() =~= all.subrange(0, i as int));
        }
        match outcome {
            Some(v) => store.insert(key, v),
            None => {},
        }
        proof {
            assert(rest@ =~= all.subrange(i + 1, all.len() as int));
        }
        i = i + 1;
    }
    assert(all.subrange(0, all.len() as int) =~= all);
    store.into_vec()
}

} // verus!
