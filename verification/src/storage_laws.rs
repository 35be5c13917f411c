//! What saving a board is for: from what is asked for to what is on disk.
use vstd::prelude::*;

use crate::board::{count_board, json_reading, length_under, members, BoardCounts};
use crate::disk::{effect, held, is_file_name, is_temp, Disk, Event};
use crate::files::{is_answer, temp_name_spec, Answer, Asked, Reply, Request, WriteStage};
use crate::history::{outlived, snapshot_name_spec, EntryData};
use crate::list_laws::{is_pruned, lemma_kept, lemma_pruned};
use crate::location::{data_place, history_place, index_place, latest_place, snapshot_place, Place};
use crate::place_laws::{data_file, history_file, is_refused, lemma_places, lemma_refused};
use crate::save::{save_counted_snapshot, save_snapshot, SaveSnapshot, SaveStep, SaveTurn, Saving, SavingStage};
use crate::save_laws::{
    all_removed, at_beginning, index_read, law_saved_board_is_there, listed_in, may_go, removes_files, save_run,
};
use crate::write_laws::lies_in;

verus! {

/// How many items the array under this key has, 0 where there is no array.
pub open spec fn items_under(object: Map<Seq<char>, Option<nat>>, key: Seq<char>, count: nat) -> bool {
    &&& object.contains_key(key) && object[key] is Some ==> object[key] == Some(count)
    &&& !object.contains_key(key) || object[key] is None ==> count == 0
}

/// A board's columns are the items under `columns`, and its cards those under
/// `cards`; a text that is not JSON is refused with the reader's words.
pub proof fn law_board_is_counted(text: &str, counts: Result<BoardCounts, String>)
    requires
        call_ensures(count_board, (text,), counts),
    ensures
        json_reading(text@) matches Ok(object) ==> (counts matches Ok(numbers) && {
            &&& items_under(object, "columns"@, numbers.columns as nat)
            &&& items_under(object, "cards"@, numbers.cards as nat)
        }),
        json_reading(text@) matches Err(words) ==> (counts matches Err(told) && told@ == words),
{
}

/// The items under any key are counted.
pub proof fn law_items_are_counted(value: serde_json::Value, key: &str, length: usize)
    requires
        call_ensures(length_under, (&value, key), length),
    ensures
        items_under(members(value), key@, length as nat),
{
}

/// A snapshot at its beginning: nothing of it is on disk yet, and it says what was
/// asked for.
pub open spec fn is_begun<B>(
    save: SaveSnapshot<B>,
    exe_dir: B,
    board: Seq<char>,
    stamp: Seq<char>,
    iso: Seq<char>,
    columns: nat,
    cards: nat,
) -> bool {
    &&& save@.exe_dir == exe_dir
    &&& save@.board == board
    &&& save@.entry == new_entry(stamp, iso, columns, cards)
    &&& save@.stage is CreatingHistory
    &&& save@.asked() == (Asked::CreateDirAll { dir: data_file(exe_dir, "history"@) })
}

/// The entry of a snapshot: its file is named after its stamp.
pub open spec fn new_entry(stamp: Seq<char>, iso: Seq<char>, columns: nat, cards: nat) -> EntryData {
    EntryData {
        filename: seq!['s', 't', 'a', 't', 'e', '_'] + stamp + seq!['.', 'j', 's', 'o', 'n'],
        timestamp: iso,
        columns,
        cards,
    }
}

proof fn lemma_new_entry(stamp: Seq<char>)
    ensures
        snapshot_name_spec(stamp) == new_entry(stamp, seq![], 0, 0).filename,
{
    reveal_strlit("state_");
    reveal_strlit(".json");
    assert("state_"@ =~= seq!['s', 't', 'a', 't', 'e', '_']);
    assert(".json"@ =~= seq!['.', 'j', 's', 'o', 'n']);
}

/// Saving begins with what was asked for: the board, the file named after its
/// stamp, its time and the numbers that were counted. It is refused, in this
/// order, for a stamp with two dots in a row or a path separator, for a board
/// that could not be counted, and without the executable; and for nothing else.
pub proof fn law_counted_snapshot_is_begun<B: Copy>(
    board: String,
    stamp: String,
    iso: String,
    counts: Result<BoardCounts, String>,
    exe_dir: Result<Option<B>, String>,
    save: Result<SaveSnapshot<B>, String>,
)
    requires
        call_ensures(save_counted_snapshot::<B>, (board, stamp, iso, counts, exe_dir), save),
    ensures
        is_refused(stamp@) ==> (save matches Err(told) && told@ == "invalid timestamp"@),
        !is_refused(stamp@) && counts is Err ==> (save matches Err(told) && told@ == counts->Err_0@),
        !is_refused(stamp@) && counts is Ok ==> match exe_dir {
            Ok(Some(dir)) => save matches Ok(begun) && is_begun(
                begun,
                dir,
                board@,
                stamp@,
                iso@,
                counts->Ok_0.columns as nat,
                counts->Ok_0.cards as nat,
            ),
            Ok(None) => save matches Err(told) && told@ == "could not resolve executable directory"@,
            Err(words) => save matches Err(told) && told@ == words@,
        },
{
    lemma_refused(stamp@);
    lemma_new_entry(stamp@);
    if let Ok(Some(dir)) = exe_dir {
        lemma_places(dir);
    }
}

/// Saving a board begins with what was asked for, and with its own numbers of
/// columns and cards. A board that is not JSON is refused with the reader's
/// words, after the stamp and before the executable is looked for.
pub proof fn law_snapshot_is_begun<B: Copy>(
    board: String,
    stamp: String,
    iso: String,
    exe_dir: Result<Option<B>, String>,
    save: Result<SaveSnapshot<B>, String>,
)
    requires
        call_ensures(save_snapshot::<B>, (board, stamp, iso, exe_dir), save),
    ensures
        is_refused(stamp@) ==> (save matches Err(told) && told@ == "invalid timestamp"@),
        !is_refused(stamp@) && json_reading(board@) is Err ==> (save matches Err(told) && told@ == json_reading(
            board@,
        )->Err_0),
        !is_refused(stamp@) && json_reading(board@) is Ok ==> match exe_dir {
            Ok(Some(dir)) => save matches Ok(begun) && {
                &&& is_begun(
                    begun,
                    dir,
                    board@,
                    stamp@,
                    iso@,
                    begun@.entry.columns,
                    begun@.entry.cards,
                )
                &&& items_under(json_reading(board@)->Ok_0, "columns"@, begun@.entry.columns)
                &&& items_under(json_reading(board@)->Ok_0, "cards"@, begun@.entry.cards)
            },
            Ok(None) => save matches Err(told) && told@ == "could not resolve executable directory"@,
            Err(words) => save matches Err(told) && told@ == words@,
        },
{
    lemma_refused(stamp@);
    lemma_new_entry(stamp@);
    if let Ok(Some(dir)) = exe_dir {
        lemma_places(dir);
    }
}

/// What an answer leads to is more work, or the list that there is now, or the
/// words of the failure.
pub proof fn law_turn_says_what_comes<B>(turn: SaveTurn<B>)
    ensures
        match turn {
            SaveTurn::Wait(save) => turn@ == SaveStep::Wait(save@),
            SaveTurn::End(Ok(entries)) => (turn@ matches SaveStep::End(Ok(told)) && told.len() == entries@.len()
                && forall|i: int| 0 <= i < told.len() ==> #[trigger] told[i] == entries@[i].deep_view()),
            SaveTurn::End(Err(words)) => turn@ == SaveStep::<B>::End(Err(words@)),
        },
{
}

/// Each request and each answer of a snapshot that is saved is a step of a run.
pub proof fn law_calls_are_a_run<B: Copy>(
    save: SaveSnapshot<B>,
    request: Request<B>,
    reply: Reply,
    turn: SaveTurn<B>,
    disk: Disk<B>,
    after: Disk<B>,
)
    requires
        call_ensures(SaveSnapshot::<B>::request, (&save,), request),
        call_ensures(SaveSnapshot::<B>::resume, (save, reply), turn),
        is_answer(request@, reply@),
        effect(disk, request@, reply@, after),
    ensures
        call_requires(SaveSnapshot::<B>::resume, (save, reply)),
        save_run(save@, disk, seq![Event { answer: reply@, disk: after }]) == Some((turn@, after)),
{
    let events = seq![Event { answer: reply@, disk: after }];
    assert(events.drop_last() =~= Seq::<Event<B>>::empty());
    assert(save_run(save@, disk, events.drop_last()) == Some((SaveStep::Wait(save@), disk)));
}

/// The list of snapshots that was read during these events; an empty one where
/// there was none, or it was not understood.
pub open spec fn was_read<B>(events: Seq<Event<B>>, list: Seq<EntryData>) -> bool {
    match index_read(events) {
        Some(Some(index)) => list == index,
        Some(None) => list.len() == 0,
        None => false,
    }
}

/// Each file that has to go, by its place in the list, goes by the name of a file.
pub open spec fn prunes_files(all: Seq<EntryData>) -> bool {
    forall|i: int| #[trigger] is_pruned(all, i) ==> is_file_name(all[i].filename)
}

/// What has to go, by its place in the list, is what is removed.
proof fn lemma_prunes<B>(save: Saving<B>, events: Seq<Event<B>>, list: Seq<EntryData>)
    requires
        was_read(events, list),
    ensures
        listed_in(save, events) == list.push(save.entry),
        prunes_files(list.push(save.entry)) ==> removes_files(save, events),
        forall|i: int| #[trigger]
            is_pruned(list.push(save.entry), i) ==> may_go(
                save,
                events,
                snapshot_place(save.exe_dir, list.push(save.entry)[i].filename),
            ) && exists|k: int|
                0 <= k < outlived(list.push(save.entry)).len() && #[trigger] outlived(list.push(save.entry))[k]
                    == list.push(save.entry)[i],
        forall|place: Place<B>| #[trigger]
            may_go(save, events, place) ==> exists|i: int| #[trigger]
                is_pruned(list.push(save.entry), i) && place == snapshot_place(
                    save.exe_dir,
                    list.push(save.entry)[i].filename,
                ),
{
    let all = list.push(save.entry);
    assert(listed_in(save, events) =~= all);
    let places = lemma_pruned(all);
    let gone = outlived(all);
    assert forall|k: int| 0 <= k < gone.len() implies is_pruned(all, places[k]) && #[trigger] gone[k]
        == all[places[k]] by {
        assert(places.contains(places[k]));
    }
    if prunes_files(all) {
        assert forall|k: int| 0 <= k < gone.len() implies is_file_name(#[trigger] gone[k].filename) by {
            assert(is_pruned(all, places[k]));
        }
    }
    assert forall|i: int| #[trigger] is_pruned(all, i) implies may_go(
        save,
        events,
        snapshot_place(save.exe_dir, all[i].filename),
    ) && exists|k: int| 0 <= k < gone.len() && #[trigger] gone[k] == all[i] by {
        assert(places.contains(i));
        let k = choose|k: int| 0 <= k < places.len() && places[k] == i;
        assert(gone[k] == all[i]);
        assert(snapshot_place(save.exe_dir, gone[k].filename)
            == snapshot_place(save.exe_dir, all[i].filename));
    }
    assert forall|place: Place<B>| #[trigger] may_go(save, events, place) implies exists|i: int| #[trigger]
        is_pruned(all, i) && place == snapshot_place(save.exe_dir, all[i].filename) by {
        let k = choose|k: int|
            0 <= k < gone.len() && place == snapshot_place(
                save.exe_dir,
                #[trigger] gone[k].filename,
            );
        assert(gone[k] == all[places[k]]);
        assert(is_pruned(all, places[k]));
    }
}

/// A board that was saved is on disk, twice: in the file that is named after its
/// stamp, among the snapshots, and in `latest.json`. The list that is given back
/// is the one that was read with the new entry at its end, its last fifty. Each
/// file of an entry that is no longer listed, and of none that is, is gone, if no
/// removal failed, whatever the entry says besides. No other file has changed but
/// the list. (Files named like those that texts are written to first are left
/// out, and so is a list on disk in which something else than the name of a file
/// stands for one that has to go.)
pub proof fn law_snapshot_is_saved<B: Copy>(
    board: String,
    stamp: String,
    iso: String,
    exe_dir: B,
    save: SaveSnapshot<B>,
    disk: Disk<B>,
    events: Seq<Event<B>>,
    list: Seq<EntryData>,
    entries: Seq<EntryData>,
    now: Disk<B>,
)
    requires
        call_ensures(save_snapshot::<B>, (board, stamp, iso, Ok(Some(exe_dir))), Ok(save)),
        save_run(save@, disk, events) == Some((SaveStep::<B>::End(Ok(entries)), now)),
        was_read(events, list),
        prunes_files(list.push(new_entry(stamp@, iso@, save@.entry.columns, save@.entry.cards))),
    ensures
        ({
            let new = new_entry(stamp@, iso@, save@.entry.columns, save@.entry.cards);
            let all = list.push(new);
            let file = history_file(exe_dir, new.filename);
            let latest = data_file(exe_dir, "latest.json"@);
            let index = history_file(exe_dir, "index.json"@);
            &&& json_reading(board@) is Ok
            &&& items_under(json_reading(board@)->Ok_0, "columns"@, new.columns)
            &&& items_under(json_reading(board@)->Ok_0, "cards"@, new.cards)
            &&& held(now, file) == Some(board@)
            &&& held(now, latest) == Some(board@)
            &&& entries.len() == if all.len() < 50 {
                all.len()
            } else {
                50
            }
            &&& forall|k: int|
                0 <= k < entries.len() ==> #[trigger] entries[k] == all[all.len() - entries.len() + k]
            &&& all_removed(save@, disk, events) ==> forall|i: int| #[trigger]
                is_pruned(all, i) && !is_temp(history_file(exe_dir, all[i].filename)) && history_file(
                    exe_dir,
                    all[i].filename,
                ) != index ==> held(now, history_file(exe_dir, all[i].filename)) is None
            &&& forall|place: Place<B>|
                !is_temp(place) && place != file && place != latest && place != index && (forall|i: int| #[trigger]
                    is_pruned(all, i) ==> place != history_file(exe_dir, all[i].filename)) ==> #[trigger] held(
                    now,
                    place,
                ) == held(disk, place)
        }),
{
    law_snapshot_is_begun(board, stamp, iso, Ok(Some(exe_dir)), Ok(save));
    lemma_refused(stamp@);
    lemma_new_entry(stamp@);
    lemma_places(exe_dir);
    lemma_prunes(save@, events, list);
    assert(at_beginning(save@, stamp@));
    law_saved_board_is_there(save@, stamp@, disk, events, entries, now);
    let new = new_entry(stamp@, iso@, save@.entry.columns, save@.entry.cards);
    let all = list.push(new);
    lemma_kept(all);
    if all_removed(save@, disk, events) {
        assert forall|i: int| #[trigger]
            is_pruned(all, i) && !is_temp(history_file(exe_dir, all[i].filename)) && history_file(
                exe_dir,
                all[i].filename,
            ) != history_file(exe_dir, "index.json"@) implies held(now, history_file(exe_dir, all[i].filename))
            is None by {
            let k = choose|k: int| 0 <= k < outlived(all).len() && #[trigger] outlived(all)[k] == all[i];
            assert(outlived(all)[k].filename == all[i].filename);
        }
    }
}

/// Saving fails with the words of the work that failed, and only then; that an old
/// file could not be removed does not count.
pub proof fn law_save_fails_by_a_failure<B>(
    save: Saving<B>,
    disk: Disk<B>,
    events: Seq<Event<B>>,
    step: SaveStep<B>,
    now: Disk<B>,
)
    requires
        events.len() > 0,
        save_run(save, disk, events) == Some((step, now)),
    ensures
        save_run(save, disk, events.drop_last()) matches Some((SaveStep::Wait(saving), _))
            && match events.last().answer {
            Answer::Failed(words) => if saving.asked() is RemoveFile {
                step is Wait
            } else {
                step == SaveStep::<B>::End(Err(words))
            },
            _ => !(step matches SaveStep::End(Err(_))),
        },
{
}

/// This directory was created by one of these events.
pub open spec fn was_made<B>(save: Saving<B>, disk: Disk<B>, events: Seq<Event<B>>, dir: Place<B>) -> bool {
    exists|i: int| #[trigger] was_made_by(save, disk, events, dir, i)
}

/// This directory was created by this event.
pub open spec fn was_made_by<B>(
    save: Saving<B>,
    disk: Disk<B>,
    events: Seq<Event<B>>,
    dir: Place<B>,
    i: int,
) -> bool {
    &&& 0 <= i < events.len()
    &&& events[i].answer is Done
    &&& save_run(save, disk, events.take(i)) matches Some((SaveStep::Wait(saving), _)) && saving.asked() == (
    Asked::CreateDirAll { dir })
}

/// A file of some name lies in this directory.
pub open spec fn is_in<B>(file: Place<B>, dir: Place<B>) -> bool {
    file.parts.len() > 0 && lies_in(file, dir, file.parts.last())
}

/// A stage of replacing a file in a directory, which is created by then.
spec fn writes_in<B>(write: WriteStage<B>, dir: Place<B>, file: Place<B>, made: bool) -> bool {
    match write {
        WriteStage::CreatingDir { dir: d, file: f, .. } => d == dir && f == file,
        WriteStage::ReadingClock { dir: d, file: f, .. } => d == dir && f == file && made,
        WriteStage::WritingTemp { temp, file: f, .. } => is_in(temp, dir) && f == file && made,
        WriteStage::Renaming { temp, file: f } => is_in(temp, dir) && f == file && made,
    }
}

/// At each stage, the directory of the file to be written was created.
spec fn dirs_are_made<B>(save: Saving<B>, disk: Disk<B>, events: Seq<Event<B>>, saving: Saving<B>) -> bool {
    let history = history_place(save.exe_dir);
    let data = data_place(save.exe_dir);
    &&& saving == save.at(saving.stage)
    &&& match saving.stage {
        SavingStage::WritingSnapshot(write) => writes_in(
            write,
            history,
            save.snapshot_file(),
            was_made(save, disk, events, history),
        ),
        SavingStage::WritingLatest(write) => writes_in(
            write,
            data,
            latest_place(save.exe_dir),
            was_made(save, disk, events, data),
        ),
        SavingStage::WritingIndex { write, .. } => writes_in(
            write,
            history,
            index_place(save.exe_dir),
            was_made(save, disk, events, history),
        ),
        _ => true,
    }
}

proof fn lemma_dirs_are_made<B>(
    save: Saving<B>,
    disk: Disk<B>,
    events: Seq<Event<B>>,
    saving: Saving<B>,
    now: Disk<B>,
)
    requires
        save.stage is CreatingHistory,
        save_run(save, disk, events) == Some((SaveStep::Wait(saving), now)),
    ensures
        dirs_are_made(save, disk, events, saving),
    decreases events.len(),
{
    if events.len() == 0 {
        assert(save.at(save.stage) == save);
    } else {
        let fewer = events.drop_last();
        let event = events.last();
        let last = events.len() - 1;
        let (step, before) = save_run(save, disk, fewer)->0;
        let earlier = step->Wait_0;
        lemma_dirs_are_made(save, disk, fewer, earlier, before);
        assert(events.take(last) =~= fewer);
        assert forall|dir: Place<B>| #[trigger] was_made(save, disk, fewer, dir) implies was_made(
            save,
            disk,
            events,
            dir,
        ) by {
            let i = choose|i: int| #[trigger] was_made_by(save, disk, fewer, dir, i);
            assert(fewer.take(i) =~= events.take(i));
            assert(was_made_by(save, disk, events, dir, i));
        }
        if let Asked::CreateDirAll { dir } = earlier.asked() {
            if event.answer is Done {
                assert(was_made_by(save, disk, events, dir, last));
            }
        }
        if let Answer::Clock { process, nanos } = event.answer {
            let name = temp_name_spec(process, nanos);
            assert(is_in(history_place(save.exe_dir).join(name), history_place(save.exe_dir)));
            assert(is_in(data_place(save.exe_dir).join(name), data_place(save.exe_dir)));
        }
    }
}

/// No file is written, and none takes the place of another, before its directory
/// was created; and a file takes the place of one in the same directory.
pub proof fn law_directories_come_first<B>(
    save: Saving<B>,
    disk: Disk<B>,
    events: Seq<Event<B>>,
    saving: Saving<B>,
    now: Disk<B>,
)
    requires
        save.stage is CreatingHistory,
        save_run(save, disk, events) == Some((SaveStep::Wait(saving), now)),
    ensures
        saving.asked() matches Asked::WriteText { file, .. } ==> exists|dir: Place<B>| #[trigger]
            was_made(save, disk, events, dir) && is_in(file, dir),
        saving.asked() matches Asked::Rename { from, to } ==> exists|dir: Place<B>| #[trigger]
            was_made(save, disk, events, dir) && is_in(from, dir) && is_in(to, dir),
{
    lemma_dirs_are_made(save, disk, events, saving, now);
    let history = history_place(save.exe_dir);
    let data = data_place(save.exe_dir);
    assert(is_in(save.snapshot_file(), history));
    assert(is_in(latest_place(save.exe_dir), data));
    assert(is_in(index_place(save.exe_dir), history));
    assert(was_made(save, disk, events, history) || !was_made(save, disk, events, history));
    assert(was_made(save, disk, events, data) || !was_made(save, disk, events, data));
}

} // verus!
