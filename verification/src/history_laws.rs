//! What holds of the list of snapshots, over many of them.
use vstd::prelude::*;

use crate::disk::{held, is_temp, Disk, Event};
use crate::history::{
    kept, loaded_data, or_empty, retired, snapshot_name_spec, EntryData, HistoryIndex, MAX_HISTORY,
};
use crate::location::{index_place, latest_place, snapshot_place};
use crate::save::{SaveStep, Saving};
use crate::save_laws::{
    faithful, index_read, is_snapshot_name, law_saved_board_is_there, lemma_kept_stays, lemma_list_read,
    lemma_list_written, lemma_own_names, lemma_snapshot_name, list_on, listed_in, may_go, reads_list, removes_files,
    save_run,
};
use crate::text::{has_double_dot, is_plain_name_spec};

verus! {

/// The snapshots that go and those that stay are all there are, in order; no
/// more stay than are kept; and if only one is new, it stays, as the newest.
pub proof fn law_history_is_bounded(index: Seq<EntryData>, entry: EntryData)
    ensures
        retired(index.push(entry)) + kept(index.push(entry)) == index.push(entry),
        kept(index.push(entry)).len() <= MAX_HISTORY,
        index.len() < MAX_HISTORY ==> kept(index.push(entry)) == index.push(entry),
        kept(index.push(entry)).len() > 0,
        kept(index.push(entry)).last() == entry,
{
    let all = index.push(entry);
    assert(retired(all) + kept(all) =~= all);
    if index.len() < MAX_HISTORY {
        assert(kept(all) =~= all);
    }
}

/// The list after these snapshots were added to it, one after the other.
pub open spec fn recorded(index: Seq<EntryData>, entries: Seq<EntryData>) -> Seq<EntryData>
    decreases entries.len(),
{
    if entries.len() == 0 {
        index
    } else {
        kept(recorded(index, entries.drop_last()).push(entries.last()))
    }
}

/// However many snapshots are saved, the list holds the newest of them all, in
/// the order in which they were saved.
pub proof fn law_history_holds_the_newest(index: Seq<EntryData>, entries: Seq<EntryData>)
    requires
        entries.len() > 0,
    ensures
        recorded(index, entries) == kept(index + entries),
    decreases entries.len(),
{
    let before = entries.drop_last();
    if before.len() == 0 {
        assert(recorded(index, before) == index);
        assert(index + entries =~= index.push(entries.last()));
    } else {
        law_history_holds_the_newest(index, before);
        assert(kept(kept(index + before).push(entries.last())) =~= kept(index + entries));
    }
}

/// A snapshot whose stamp is accepted gets a file whose name is accepted when
/// it is to be read, and only then, but for a stamp that ends in a dot: with the
/// ending of the file it makes two dots in a row.
pub proof fn law_saved_name_can_be_loaded(stamp: Seq<char>)
    ensures
        is_plain_name_spec(snapshot_name_spec(stamp)) <==> is_plain_name_spec(stamp) && !(stamp.len() > 0
            && stamp.last() == '.'),
{
    reveal_strlit("state_");
    reveal_strlit(".json");
    let name = snapshot_name_spec(stamp);
    let n = stamp.len() as int;
    assert(name.len() == 6 + n + 5);
    assert forall|i: int| 0 <= i < n implies stamp[i] == #[trigger] name[6 + i] by {}
    if stamp.contains('/') {
        let i = choose|i: int| 0 <= i < n && stamp[i] == '/';
        assert(name[6 + i] == '/');
    }
    if stamp.contains('\\') {
        let i = choose|i: int| 0 <= i < n && stamp[i] == '\\';
        assert(name[6 + i] == '\\');
    }
    if has_double_dot(stamp) {
        let i = choose|i: int| 0 <= i < n - 1 && #[trigger] stamp[i] == '.' && stamp[i + 1] == '.';
        assert(name[6 + i] == '.' && name[6 + i + 1] == '.');
    }
    if n > 0 && stamp.last() == '.' {
        assert(name[6 + (n - 1)] == '.' && name[6 + (n - 1) + 1] == '.');
    }
    if is_plain_name_spec(stamp) && !(n > 0 && stamp.last() == '.') {
        assert forall|i: int| 0 <= i < name.len() implies name[i] != '/' && name[i] != '\\' by {
            if 6 <= i < 6 + n {
                assert(name[i] == stamp[i - 6]);
                assert(stamp.contains(stamp[i - 6]));
            }
        }
        assert forall|i: int| 0 <= i < name.len() - 1 implies !(#[trigger] name[i] == '.' && name[i + 1]
            == '.') by {
            if 6 <= i < 6 + n {
                assert(name[i] == stamp[i - 6]);
                if i + 1 < 6 + n {
                    assert(name[i + 1] == stamp[i - 6 + 1]);
                }
            }
        }
    }
}

/// A snapshot that was saved: what was asked for, the disk before, what was
/// answered, the list that was given back, and the disk after.
#[verifier::reject_recursive_types(B)]
pub struct Saved<B> {
    pub board: Seq<char>,
    pub stamp: Seq<char>,
    pub iso: Seq<char>,
    pub counts: (nat, nat),
    pub before: Disk<B>,
    pub events: Seq<Event<B>>,
    pub entries: Seq<EntryData>,
    pub after: Disk<B>,
}

impl<B> Saved<B> {
    /// The work at its beginning.
    pub open spec fn start(self, exe_dir: B) -> Saving<B> {
        Saving::begin(exe_dir, self.board, self.stamp, self.iso, self.counts)
    }

    /// The work began and ended well; the list that it read was the one on disk,
    /// and the list that it wrote can be understood again.
    pub open spec fn went_well(
        self,
        exe_dir: B,
        decode: spec_fn(Seq<char>) -> Option<Seq<EntryData>>,
    ) -> bool {
        &&& is_plain_name_spec(self.stamp)
        &&& save_run(self.start(exe_dir), self.before, self.events) == Some(
            (SaveStep::<B>::End(Ok(self.entries)), self.after),
        )
        &&& reads_list(self.start(exe_dir), self.before, self.events, decode)
        &&& faithful(self.start(exe_dir), self.before, self.events, decode)
    }
}

/// The disk after these snapshots were saved, which at first was `first`.
pub open spec fn disk_after<B>(first: Disk<B>, saves: Seq<Saved<B>>) -> Disk<B> {
    if saves.len() == 0 {
        first
    } else {
        saves.last().after
    }
}

/// These snapshots were saved one after the other, beginning on the disk
/// `first`, and nothing else touched the list on disk.
pub open spec fn in_a_row<B>(
    exe_dir: B,
    first: Disk<B>,
    saves: Seq<Saved<B>>,
    decode: spec_fn(Seq<char>) -> Option<Seq<EntryData>>,
) -> bool {
    forall|i: int| 0 <= i < saves.len() ==> #[trigger] saved_next(exe_dir, first, saves, decode, i)
}

/// One of these snapshots was saved, on the list that those before it left.
pub open spec fn saved_next<B>(
    exe_dir: B,
    first: Disk<B>,
    saves: Seq<Saved<B>>,
    decode: spec_fn(Seq<char>) -> Option<Seq<EntryData>>,
    i: int,
) -> bool {
    &&& saves[i].went_well(exe_dir, decode)
    &&& held(saves[i].before, index_place(exe_dir)) == held(
        disk_after(first, saves.take(i)),
        index_place(exe_dir),
    )
}

/// The entries of these snapshots.
pub open spec fn entries_of<B>(exe_dir: B, saves: Seq<Saved<B>>) -> Seq<EntryData> {
    Seq::new(saves.len(), |i: int| saves[i].start(exe_dir).entry)
}

/// Snapshots saved in a row, but for the last, are snapshots saved in a row.
proof fn lemma_earlier<B>(
    exe_dir: B,
    first: Disk<B>,
    saves: Seq<Saved<B>>,
    decode: spec_fn(Seq<char>) -> Option<Seq<EntryData>>,
)
    requires
        in_a_row(exe_dir, first, saves, decode),
        saves.len() > 0,
    ensures
        in_a_row(exe_dir, first, saves.drop_last(), decode),
{
    let earlier = saves.drop_last();
    assert forall|i: int| 0 <= i < earlier.len() implies #[trigger] saved_next(
        exe_dir,
        first,
        earlier,
        decode,
        i,
    ) by {
        assert(saved_next(exe_dir, first, saves, decode, i));
        assert(earlier.take(i) =~= saves.take(i));
    }
}

/// However many snapshots are saved in a row, the list on disk is then the list
/// that was there before with all of them added to it, one after the other.
proof fn lemma_saved_in_a_row<B>(
    exe_dir: B,
    first: Disk<B>,
    saves: Seq<Saved<B>>,
    decode: spec_fn(Seq<char>) -> Option<Seq<EntryData>>,
)
    requires
        in_a_row(exe_dir, first, saves, decode),
    ensures
        or_empty(list_on(exe_dir, disk_after(first, saves), decode)) == recorded(
            or_empty(list_on(exe_dir, first, decode)),
            entries_of(exe_dir, saves),
        ),
    decreases saves.len(),
{
    if saves.len() > 0 {
        let earlier = saves.drop_last();
        let last = saves.last();
        let save = last.start(exe_dir);
        assert(saved_next(exe_dir, first, saves, decode, saves.len() - 1));
        assert(saves.take(saves.len() - 1) =~= earlier);
        lemma_earlier(exe_dir, first, saves, decode);
        lemma_saved_in_a_row(exe_dir, first, earlier, decode);
        lemma_list_read(save, last.stamp, last.before, last.events, decode);
        lemma_list_written(save, last.stamp, last.before, last.events, last.entries, last.after, decode);
        assert(entries_of(exe_dir, saves).drop_last() =~= entries_of(exe_dir, earlier));
        assert(entries_of(exe_dir, saves).last() == save.entry);
    }
}

/// However many snapshots are saved in a row, what the list of snapshots
/// (`loaded` from disk) then tells are the newest of those that were there before
/// and these, in the order in which they were saved.
pub proof fn law_list_tells_the_newest<B>(
    exe_dir: B,
    first: Disk<B>,
    saves: Seq<Saved<B>>,
    decode: spec_fn(Seq<char>) -> Option<Seq<EntryData>>,
    loaded: Option<HistoryIndex>,
)
    requires
        in_a_row(exe_dir, first, saves, decode),
        loaded_data(loaded) == list_on(exe_dir, disk_after(first, saves), decode),
        saves.len() > 0,
    ensures
        or_empty(loaded_data(loaded)) == kept(
            or_empty(list_on(exe_dir, first, decode)) + entries_of(exe_dir, saves),
        ),
{
    lemma_saved_in_a_row(exe_dir, first, saves, decode);
    law_history_holds_the_newest(or_empty(list_on(exe_dir, first, decode)), entries_of(exe_dir, saves));
}

/// From a disk without a list, after any number of snapshots saved in a row
/// (none, too), the list of snapshots tells the newest of them, at most
/// `MAX_HISTORY`, oldest first, each with its file, its time and its counts.
pub proof fn law_new_list_tells_the_newest<B>(
    exe_dir: B,
    first: Disk<B>,
    saves: Seq<Saved<B>>,
    decode: spec_fn(Seq<char>) -> Option<Seq<EntryData>>,
    loaded: Option<HistoryIndex>,
)
    requires
        held(first, index_place(exe_dir)) is None,
        in_a_row(exe_dir, first, saves, decode),
        loaded_data(loaded) == list_on(exe_dir, disk_after(first, saves), decode),
    ensures
        ({
            let told = or_empty(loaded_data(loaded));
            &&& told.len() == if saves.len() < MAX_HISTORY {
                saves.len()
            } else {
                MAX_HISTORY as nat
            }
            &&& forall|j: int|
                0 <= j < told.len() ==> {
                    let saved = saves[saves.len() - told.len() + j];
                    #[trigger] told[j] == (EntryData {
                        filename: snapshot_name_spec(saved.stamp),
                        timestamp: saved.iso,
                        columns: saved.counts.0,
                        cards: saved.counts.1,
                    })
                }
        }),
{
    if saves.len() > 0 {
        law_list_tells_the_newest(exe_dir, first, saves, decode, loaded);
        let none = or_empty(list_on(exe_dir, first, decode));
        assert(none + entries_of(exe_dir, saves) =~= entries_of(exe_dir, saves));
    }
}

/// Between these snapshots nothing else touched the files among the snapshots,
/// but for those named like the ones that texts are written to first.
pub open spec fn undisturbed<B>(exe_dir: B, first: Disk<B>, saves: Seq<Saved<B>>) -> bool {
    forall|i: int, name: Seq<char>|
        #![trigger held(saves[i].before, snapshot_place(exe_dir, name))]
        0 <= i < saves.len() && !is_temp(snapshot_place(exe_dir, name)) ==> held(
            saves[i].before,
            snapshot_place(exe_dir, name),
        ) == held(disk_after(first, saves.take(i)), snapshot_place(exe_dir, name))
}

/// The board that was saved last under this stamp.
pub open spec fn last_board<B>(saves: Seq<Saved<B>>, stamp: Seq<char>) -> Option<Seq<char>>
    decreases saves.len(),
{
    if saves.len() == 0 {
        None
    } else if saves.last().stamp == stamp {
        Some(saves.last().board)
    } else {
        last_board(saves.drop_last(), stamp)
    }
}

/// Two snapshots have the same file only if they have the same stamp.
proof fn lemma_same_stamp(one: Seq<char>, other: Seq<char>)
    requires
        snapshot_name_spec(one) == snapshot_name_spec(other),
    ensures
        one == other,
{
    reveal_strlit("state_");
    reveal_strlit(".json");
    let name = snapshot_name_spec(one);
    assert(one =~= name.subrange(6, name.len() - 5));
    assert(other =~= name.subrange(6, name.len() - 5));
}

/// From a disk without a list, the list that the last of these snapshots was
/// added to holds the newest of those before, and no names but the application's
/// own.
proof fn lemma_list_of_own_names<B>(
    exe_dir: B,
    first: Disk<B>,
    saves: Seq<Saved<B>>,
    decode: spec_fn(Seq<char>) -> Option<Seq<EntryData>>,
)
    requires
        held(first, index_place(exe_dir)) is None,
        in_a_row(exe_dir, first, saves, decode),
        saves.len() > 0,
    ensures
        ({
            let last = saves.last();
            let save = last.start(exe_dir);
            &&& index_read(last.events) is Some
            &&& or_empty(index_read(last.events)->0) == kept(entries_of(exe_dir, saves.drop_last()))
            &&& removes_files(save, last.events)
        }),
{
    let earlier = saves.drop_last();
    let last = saves.last();
    let save = last.start(exe_dir);
    let added = entries_of(exe_dir, earlier);
    assert(saved_next(exe_dir, first, saves, decode, saves.len() - 1));
    assert(saves.take(saves.len() - 1) =~= earlier);
    lemma_earlier(exe_dir, first, saves, decode);
    lemma_saved_in_a_row(exe_dir, first, earlier, decode);
    lemma_list_read(save, last.stamp, last.before, last.events, decode);
    lemma_list_written(save, last.stamp, last.before, last.events, last.entries, last.after, decode);
    let none = or_empty(list_on(exe_dir, first, decode));
    if earlier.len() > 0 {
        law_history_holds_the_newest(none, added);
    }
    assert(none + added =~= added);
    let read = or_empty(index_read(last.events)->0);
    assert forall|i: int| 0 <= i < read.len() implies is_snapshot_name(#[trigger] read[i].filename) by {
        let k = earlier.len() - read.len() + i;
        assert(read[i] == added[k]);
        assert(saved_next(exe_dir, first, saves, decode, k));
        assert(read[i].filename == snapshot_name_spec(saves[k].stamp));
    }
    lemma_own_names(save, last.stamp, last.events);
}

/// The board of the last of these snapshots is in its own file and in the file of
/// the board saved last.
proof fn lemma_last_save<B>(
    exe_dir: B,
    first: Disk<B>,
    saves: Seq<Saved<B>>,
    decode: spec_fn(Seq<char>) -> Option<Seq<EntryData>>,
)
    requires
        held(first, index_place(exe_dir)) is None,
        in_a_row(exe_dir, first, saves, decode),
        saves.len() > 0,
    ensures
        held(saves.last().after, latest_place(exe_dir)) == Some(saves.last().board),
        held(saves.last().after, snapshot_place(exe_dir, snapshot_name_spec(saves.last().stamp))) == Some(
            saves.last().board,
        ),
{
    let last = saves.last();
    let save = last.start(exe_dir);
    assert(saved_next(exe_dir, first, saves, decode, saves.len() - 1));
    lemma_list_of_own_names(exe_dir, first, saves, decode);
    law_saved_board_is_there(save, last.stamp, last.before, last.events, last.entries, last.after);
}

/// Saving the last of these snapshots leaves the files of the others that are
/// still listed as they were.
proof fn lemma_others_stay<B>(
    exe_dir: B,
    first: Disk<B>,
    saves: Seq<Saved<B>>,
    decode: spec_fn(Seq<char>) -> Option<Seq<EntryData>>,
    k: int,
)
    requires
        held(first, index_place(exe_dir)) is None,
        in_a_row(exe_dir, first, saves, decode),
        saves.len() - MAX_HISTORY <= k,
        0 <= k < saves.len(),
        saves[k].stamp != saves.last().stamp,
    ensures
        ({
            let place = snapshot_place(exe_dir, snapshot_name_spec(saves[k].stamp));
            held(saves.last().after, place) == held(saves.last().before, place)
        }),
{
    let earlier = saves.drop_last();
    let last = saves.last();
    let save = last.start(exe_dir);
    let name = snapshot_name_spec(saves[k].stamp);
    let place = snapshot_place(exe_dir, name);
    assert(saved_next(exe_dir, first, saves, decode, saves.len() - 1));
    lemma_list_of_own_names(exe_dir, first, saves, decode);
    assert(!may_go(save, last.events, place)) by {
        let staying = kept(listed_in(save, last.events));
        let j = staying.len() - (saves.len() - k);
        assert(entries_of(exe_dir, earlier)[k] == saves[k].start(exe_dir).entry);
        assert(staying[j].filename == name);
        lemma_kept_stays(save, last.events, j);
    }
    assert(place != save.snapshot_file()) by {
        if place == save.snapshot_file() {
            assert(place.parts.last() == name);
            assert(save.snapshot_file().parts.last() == save.entry.filename);
            lemma_same_stamp(saves[k].stamp, last.stamp);
        }
    }
    lemma_snapshot_name(exe_dir, saves[k].stamp);
    law_saved_board_is_there(save, last.stamp, last.before, last.events, last.entries, last.after);
}

/// The file of each snapshot that is still listed holds the board that was saved
/// last under its stamp.
proof fn lemma_listed_boards<B>(
    exe_dir: B,
    first: Disk<B>,
    saves: Seq<Saved<B>>,
    decode: spec_fn(Seq<char>) -> Option<Seq<EntryData>>,
    k: int,
)
    requires
        held(first, index_place(exe_dir)) is None,
        in_a_row(exe_dir, first, saves, decode),
        undisturbed(exe_dir, first, saves),
        saves.len() - MAX_HISTORY <= k,
        0 <= k < saves.len(),
    ensures
        last_board(saves, saves[k].stamp) is Some,
        held(disk_after(first, saves), snapshot_place(exe_dir, snapshot_name_spec(saves[k].stamp)))
            == last_board(saves, saves[k].stamp),
    decreases saves.len(),
{
    let earlier = saves.drop_last();
    let last = saves.last();
    if last.stamp == saves[k].stamp {
        lemma_last_save(exe_dir, first, saves, decode);
    } else {
        assert(earlier[k] == saves[k]);
        lemma_earlier(exe_dir, first, saves, decode);
        lemma_earlier_undisturbed(exe_dir, first, saves);
        lemma_listed_boards(exe_dir, first, earlier, decode, k);
        lemma_others_stay(exe_dir, first, saves, decode, k);
        lemma_snapshot_name(exe_dir, saves[k].stamp);
        assert(saves.take(saves.len() - 1) =~= earlier);
        assert(held(saves[saves.len() - 1].before, snapshot_place(exe_dir, snapshot_name_spec(saves[k].stamp)))
            == held(disk_after(first, earlier), snapshot_place(exe_dir, snapshot_name_spec(saves[k].stamp))));
    }
}

proof fn lemma_earlier_undisturbed<B>(exe_dir: B, first: Disk<B>, saves: Seq<Saved<B>>)
    requires
        undisturbed(exe_dir, first, saves),
        saves.len() > 0,
    ensures
        undisturbed(exe_dir, first, saves.drop_last()),
{
    let earlier = saves.drop_last();
    assert forall|i: int, name: Seq<char>|
        #![trigger held(earlier[i].before, snapshot_place(exe_dir, name))]
        0 <= i < earlier.len() && !is_temp(snapshot_place(exe_dir, name)) implies held(
        earlier[i].before,
        snapshot_place(exe_dir, name),
    ) == held(disk_after(first, earlier.take(i)), snapshot_place(exe_dir, name)) by {
        assert(earlier.take(i) =~= saves.take(i));
        assert(held(saves[i].before, snapshot_place(exe_dir, name)) == held(
            disk_after(first, saves.take(i)),
            snapshot_place(exe_dir, name),
        ));
    }
}

/// From a disk without a list, after any number of snapshots saved in a row,
/// every snapshot that the list then tells can be read back: its file holds the
/// board that was saved last under its stamp. The file of the board saved last
/// holds the last one.
pub proof fn law_every_listed_board_is_there<B>(
    exe_dir: B,
    first: Disk<B>,
    saves: Seq<Saved<B>>,
    decode: spec_fn(Seq<char>) -> Option<Seq<EntryData>>,
    loaded: Option<HistoryIndex>,
)
    requires
        held(first, index_place(exe_dir)) is None,
        in_a_row(exe_dir, first, saves, decode),
        undisturbed(exe_dir, first, saves),
        loaded_data(loaded) == list_on(exe_dir, disk_after(first, saves), decode),
    ensures
        ({
            let told = or_empty(loaded_data(loaded));
            let now = disk_after(first, saves);
            &&& forall|j: int|
                0 <= j < told.len() ==> {
                    let board = last_board(saves, saves[saves.len() - told.len() + j].stamp);
                    board is Some && held(now, snapshot_place(exe_dir, #[trigger] told[j].filename)) == board
                }
            &&& saves.len() > 0 ==> held(now, latest_place(exe_dir)) == Some(saves.last().board)
        }),
{
    law_new_list_tells_the_newest(exe_dir, first, saves, decode, loaded);
    let told = or_empty(loaded_data(loaded));
    assert forall|j: int| 0 <= j < told.len() implies {
        let board = last_board(saves, saves[saves.len() - told.len() + j].stamp);
        board is Some && held(disk_after(first, saves), snapshot_place(exe_dir, #[trigger] told[j].filename))
            == board
    } by {
        lemma_listed_boards(exe_dir, first, saves, decode, saves.len() - told.len() + j);
    }
    if saves.len() > 0 {
        lemma_last_save(exe_dir, first, saves, decode);
    }
}

} // verus!
