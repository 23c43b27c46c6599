use vstd::prelude::*;
use crate::keys::{keys_of, names_view};
use crate::names::is_hidden_spec;
use crate::store::loaded_map;

verus! {

/// A directory with no entries (as a missing one is read) has no keys: the listing of it is
/// empty.
pub proof fn lemma_no_entries_no_keys(listing: Seq<String>)
    requires
        names_view(listing).to_set() == keys_of(Seq::<Seq<char>>::empty()),
    ensures
        listing.len() == 0,
        loaded_map(Seq::<(String, Option<u64>)>::empty()) == Map::<Seq<char>, u64>::empty(),
{
    assert(keys_of(Seq::<Seq<char>>::empty()) =~= Set::<Seq<char>>::empty());
    if listing.len() > 0 {
        assert(names_view(listing).to_set().contains(names_view(listing)[0]));
    }
}

/// A hidden entry, such as `.cache.json`, adds no key to a directory's listing.
pub proof fn lemma_hidden_entry_adds_no_key(entries: Seq<Seq<char>>, name: Seq<char>)
    requires
        is_hidden_spec(name),
    ensures
        keys_of(entries.push(name)) == keys_of(entries),
{
    let more = entries.push(name);
    assert forall|k: Seq<char>| keys_of(more).contains(k) implies keys_of(entries).contains(k) by {
        let j = choose|j: int| 0 <= j < more.len() && !is_hidden_spec(#[trigger] more[j]) && crate::names::stem_of(more[j]) == k;
        assert(more[j] == entries[j]);
    };
    assert forall|k: Seq<char>| keys_of(entries).contains(k) implies keys_of(more).contains(k) by {
        let j = choose|j: int| 0 <= j < entries.len() && !is_hidden_spec(#[trigger] entries[j]) && crate::names::stem_of(entries[j]) == k;
        assert(more[j] == entries[j]);
    };
    assert(keys_of(more) =~= keys_of(entries));
}

/// An entry that failed to load leaves the loaded map as it was; one that loaded sets its key
/// whatever came before.
pub proof fn lemma_loaded_entry_effect<T>(loaded: Seq<(String, Option<T>)>, key: String, value: T)
    ensures
        loaded_map(loaded.push((key, None))) == loaded_map(loaded),
        loaded_map(loaded.push((key, Some(value)))) == loaded_map(loaded).insert(key@, value),
{
    assert(loaded.push((key, None::<T>)).drop_last() =~= loaded);
    assert(loaded.push((key, Some(value))).drop_last() =~= loaded);
}

} // verus!
