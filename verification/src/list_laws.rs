//! What holds of the list of snapshots as one more is added to it.
use vstd::prelude::*;

use crate::history::{
    kept, list_history, names_file, outlived, read_index, retired, snapshot_name, unneeded, EntryData, HistoryEntry,
    HistoryIndex,
};

verus! {

/// One entry of the list says its file, its time and its two numbers.
pub proof fn law_entry_says_what_it_holds(entry: HistoryEntry)
    ensures
        entry.deep_view().filename == entry.filename@,
        entry.deep_view().timestamp == entry.timestamp@,
        entry.deep_view().columns == entry.columns,
        entry.deep_view().cards == entry.cards,
{
}

/// The list says its entries, in order.
pub proof fn law_list_says_its_entries(index: HistoryIndex)
    ensures
        index@.len() == index.snapshots@.len(),
        forall|i: int| 0 <= i < index.snapshots@.len() ==> #[trigger] index@[i] == index.snapshots@[i].deep_view(),
{
}

/// By its place in the list, with the new entry at its end, a snapshot stays: it
/// is one of the last fifty.
pub open spec fn is_among_the_newest(all: Seq<EntryData>, i: int) -> bool {
    0 <= i < all.len() && all.len() - 50 <= i
}

/// By its place in the list, with the new entry at its end, a snapshot goes, and
/// no snapshot that stays has its file.
pub open spec fn is_pruned(all: Seq<EntryData>, i: int) -> bool {
    &&& 0 <= i < all.len() - 50
    &&& forall|j: int| #[trigger] is_among_the_newest(all, j) ==> all[j].filename != all[i].filename
}

/// What is picked from a list by these places, which are told in order.
pub open spec fn picked_at(picked: Seq<EntryData>, all: Seq<EntryData>, places: Seq<int>) -> bool {
    &&& picked.len() == places.len()
    &&& forall|k: int|
        0 <= k < places.len() ==> 0 <= #[trigger] places[k] < all.len() && picked[k] == all[places[k]]
    &&& forall|k: int, l: int| 0 <= k < l < places.len() ==> #[trigger] places[k] < #[trigger] places[l]
}

/// The places of what a condition picks.
spec fn places_of(all: Seq<EntryData>, pick: spec_fn(EntryData) -> bool) -> Seq<int>
    decreases all.len(),
{
    if all.len() == 0 {
        seq![]
    } else if pick(all.last()) {
        places_of(all.drop_last(), pick).push(all.len() - 1)
    } else {
        places_of(all.drop_last(), pick)
    }
}

proof fn lemma_places_of(all: Seq<EntryData>, pick: spec_fn(EntryData) -> bool)
    ensures
        picked_at(all.filter(pick), all, places_of(all, pick)),
        forall|i: int|
            #![trigger places_of(all, pick).contains(i)]
            places_of(all, pick).contains(i) <==> 0 <= i < all.len() && pick(all[i]),
    decreases all.len(),
{
    let places = places_of(all, pick);
    if all.len() == 0 {
        all.lemma_filter_len(pick);
    } else {
        let fewer = all.drop_last();
        let before = places_of(fewer, pick);
        let last = all.len() - 1;
        lemma_places_of(fewer, pick);
        fewer.lemma_filter_push(all.last(), pick);
        assert(fewer.push(all.last()) =~= all);
        assert forall|i: int| #![trigger places.contains(i)] places.contains(i) <==> 0 <= i < all.len() && pick(
            all[i],
        ) by {
            if pick(all.last()) && i == last {
                assert(places[places.len() - 1] == last);
            }
            if 0 <= i < last && pick(all[i]) {
                assert(fewer[i] == all[i]);
                assert(before.contains(i));
                let k = choose|k: int| 0 <= k < before.len() && before[k] == i;
                assert(places[k] == i);
            }
            if places.contains(i) {
                let k = choose|k: int| 0 <= k < places.len() && places[k] == i;
                if k < before.len() {
                    assert(before[k] == i);
                    assert(before.contains(i));
                }
            }
        }
    }
}

/// What stays are the last fifty.
pub(crate) proof fn lemma_kept(all: Seq<EntryData>)
    ensures
        kept(all).len() == if all.len() < 50 {
            all.len()
        } else {
            50
        },
        forall|k: int| 0 <= k < kept(all).len() ==> #[trigger] kept(all)[k] == all[all.len() - kept(all).len() + k],
{
}

/// Whose files go are those that are pruned, in order.
pub(crate) proof fn lemma_pruned(all: Seq<EntryData>) -> (places: Seq<int>)
    ensures
        picked_at(outlived(all), all, places),
        forall|i: int| #[trigger] places.contains(i) <==> is_pruned(all, i),
{
    let pick = unneeded(kept(all));
    let old = retired(all);
    let places = places_of(old, pick);
    lemma_places_of(old, pick);
    lemma_kept(all);
    assert forall|i: int| #[trigger] places.contains(i) <==> is_pruned(all, i) by {
        if 0 <= i < old.len() {
            assert(old[i] == all[i]);
            if names_file(kept(all), all[i].filename) {
                let k = choose|k: int| 0 <= k < kept(all).len() && #[trigger] kept(all)[k].filename == all[i].filename;
                assert(is_among_the_newest(all, all.len() - kept(all).len() + k));
            } else {
                assert forall|j: int| #[trigger] is_among_the_newest(all, j) implies all[j].filename
                    != all[i].filename by {
                    assert(kept(all)[j - (all.len() - kept(all).len())] == all[j]);
                }
            }
        }
    }
    places
}

/// Adding a snapshot puts it at the end of the list, keeps the last fifty in
/// order, and gives back, oldest first, each entry that goes and whose file is
/// that of none that stays, whatever else it says; and no other.
pub proof fn law_record_keeps_the_last_fifty(index: &mut HistoryIndex, entry: HistoryEntry, gone: Vec<HistoryEntry>)
    requires
        call_ensures(HistoryIndex::record, (index, entry), gone),
    ensures
        ({
            let all = old(index)@.push(entry.deep_view());
            &&& final(index)@.len() == if all.len() < 50 {
                all.len()
            } else {
                50
            }
            &&& forall|k: int|
                0 <= k < final(index)@.len() ==> #[trigger] final(index)@[k] == all[all.len() - final(index)@.len()
                    + k]
            &&& exists|places: Seq<int>|
                {
                    &&& #[trigger] picked_at(gone.deep_view(), all, places)
                    &&& forall|i: int| #[trigger] places.contains(i) <==> is_pruned(all, i)
                }
        }),
{
    let all = old(index)@.push(entry.deep_view());
    lemma_kept(all);
    let places = lemma_pruned(all);
    assert(picked_at(gone.deep_view(), all, places));
}

/// A file is found in the list exactly if an entry has it.
pub proof fn law_file_is_found(index: HistoryIndex, filename: String, found: bool)
    requires
        call_ensures(HistoryIndex::has_file, (&index, &filename), found),
    ensures
        found <==> exists|i: int|
            0 <= i < index.snapshots@.len() && #[trigger] index.snapshots@[i].filename@ == filename@,
{
    if found {
        let i = choose|i: int| 0 <= i < index@.len() && #[trigger] index@[i].filename == filename@;
        assert(index.snapshots@[i].filename@ == filename@);
    }
    if exists|i: int| 0 <= i < index.snapshots@.len() && #[trigger] index.snapshots@[i].filename@ == filename@ {
        let i = choose|i: int|
            0 <= i < index.snapshots@.len() && #[trigger] index.snapshots@[i].filename@ == filename@;
        assert(index@[i].filename == filename@);
    }
}

/// A list that was loaded is the list, and every entry of it is listed, in order;
/// without one the list is empty.
pub proof fn law_loaded_list_is_listed(
    loaded: Option<HistoryIndex>,
    index: HistoryIndex,
    entries: Vec<HistoryEntry>,
)
    requires
        call_ensures(read_index, (loaded,), index),
        call_ensures(list_history, (loaded,), entries),
    ensures
        loaded matches Some(list) ==> {
            &&& index@ == list@
            &&& entries@.len() == list.snapshots@.len()
            &&& forall|i: int|
                0 <= i < entries@.len() ==> (#[trigger] entries@[i]).deep_view() == list.snapshots@[i].deep_view()
        },
        loaded is None ==> index@.len() == 0 && entries@.len() == 0,
{
    if let Some(list) = loaded {
        assert(entries.deep_view() == list@);
        assert(entries.deep_view().len() == entries@.len());
        assert forall|i: int| 0 <= i < entries@.len() implies (#[trigger] entries@[i]).deep_view()
            == list.snapshots@[i].deep_view() by {
            assert(entries.deep_view()[i] == list@[i]);
        }
    } else {
        assert(entries.deep_view().len() == entries@.len());
    }
}

/// A copy of the list says the same, and so does a copy of an entry.
pub proof fn law_copies_say_the_same(
    index: HistoryIndex,
    same: HistoryIndex,
    entry: HistoryEntry,
    again: HistoryEntry,
)
    requires
        call_ensures(HistoryIndex::duplicate, (&index,), same),
        call_ensures(HistoryEntry::clone, (&entry,), again),
    ensures
        same@ == index@,
        again.filename@ == entry.filename@,
        again.timestamp@ == entry.timestamp@,
        again.columns == entry.columns,
        again.cards == entry.cards,
{
    assert(again.deep_view() == entry.deep_view());
}

/// The file of a snapshot is named after its stamp: `state_`, the stamp, `.json`.
pub proof fn law_snapshot_is_named_after_its_stamp(stamp: &str, name: String)
    requires
        call_ensures(snapshot_name, (stamp,), name),
    ensures
        name@ == seq!['s', 't', 'a', 't', 'e', '_'] + stamp@ + seq!['.', 'j', 's', 'o', 'n'],
{
    reveal_strlit("state_");
    reveal_strlit(".json");
    assert("state_"@ =~= seq!['s', 't', 'a', 't', 'e', '_']);
    assert(".json"@ =~= seq!['.', 'j', 's', 'o', 'n']);
}

/// A new list is empty, and a new entry says nothing.
pub proof fn law_new_list_is_empty(index: HistoryIndex, entry: HistoryEntry)
    requires
        call_ensures(HistoryIndex::default, (), index),
        call_ensures(HistoryEntry::default, (), entry),
    ensures
        index@.len() == 0,
        entry.filename@.len() == 0,
        entry.timestamp@.len() == 0,
        entry.columns == 0,
        entry.cards == 0,
{
}

} // verus!
