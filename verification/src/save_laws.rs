//! What holds of the files while a snapshot is saved, and after.
use vstd::prelude::*;

use crate::disk::{
    effect, held, interrupted, is_file_name, is_temp, lemma_not_temp, lemma_write_answered,
    lemma_write_interrupted, on_the_way, Disk, Event,
};
use crate::files::{is_answer, Answer, Asked, WriteStage};
use crate::history::{
    kept, loaded_data, names_file, or_empty, outlived, retired, snapshot_name_spec, surplus, unneeded, EntryData,
    HistoryIndex,
};
use crate::location::{
    data_place, history_place, index_place, latest_place, snapshot_place, Place,
};
use crate::save::{SaveStep, Saving, SavingStage};
use crate::text::is_plain_name_spec;

verus! {

/// Where saving a snapshot stands after these events, and what is on the disk.
/// `None` for events that cannot be.
pub open spec fn save_run<B>(
    save: Saving<B>,
    disk: Disk<B>,
    events: Seq<Event<B>>,
) -> Option<(SaveStep<B>, Disk<B>)>
    decreases events.len(),
{
    if events.len() == 0 {
        Some((SaveStep::Wait(save), disk))
    } else {
        let event = events.last();
        match save_run(save, disk, events.drop_last()) {
            Some((SaveStep::Wait(saving), before)) => if is_answer(saving.asked(), event.answer)
                && effect(before, saving.asked(), event.answer, event.disk) {
                Some((saving.next(event.answer), event.disk))
            } else {
                None
            },
            _ => None,
        }
    }
}

/// The list of snapshots that was read from disk during these events.
pub open spec fn index_read<B>(events: Seq<Event<B>>) -> Option<Option<Seq<EntryData>>>
    decreases events.len(),
{
    if events.len() == 0 {
        None
    } else if events.last().answer is Index {
        Some(events.last().answer->Index_0)
    } else {
        index_read(events.drop_last())
    }
}

/// The text that the new list of snapshots was turned into during these events.
pub open spec fn text_encoded<B>(events: Seq<Event<B>>) -> Option<Seq<char>>
    decreases events.len(),
{
    if events.len() == 0 {
        None
    } else if events.last().answer is Encoded {
        Some(events.last().answer->Encoded_0)
    } else {
        text_encoded(events.drop_last())
    }
}

/// The snapshots that the list held with the new one in it, before the oldest
/// went.
pub open spec fn listed_in<B>(save: Saving<B>, events: Seq<Event<B>>) -> Seq<EntryData> {
    match index_read(events) {
        Some(loaded) => save.listed(loaded),
        None => Seq::empty(),
    }
}

/// The file of one of these snapshots.
pub open spec fn is_file_of<B>(exe_dir: B, entries: Seq<EntryData>, place: Place<B>) -> bool {
    exists|i: int|
        0 <= i < entries.len() && place == snapshot_place(exe_dir, #[trigger] entries[i].filename)
}

/// A file that has to go: that of a snapshot that goes, and of none that stays.
pub open spec fn may_go<B>(save: Saving<B>, events: Seq<Event<B>>, place: Place<B>) -> bool {
    is_file_of(save.exe_dir, outlived(listed_in(save, events)), place)
}

/// Each of these snapshots goes by the name of a file.
pub open spec fn names_files(entries: Seq<EntryData>) -> bool {
    forall|i: int| 0 <= i < entries.len() ==> is_file_name(#[trigger] entries[i].filename)
}

/// By the list of snapshots that was read during these events, each file that
/// has to go goes by the name of a file.
pub open spec fn removes_files<B>(save: Saving<B>, events: Seq<Event<B>>) -> bool {
    names_files(outlived(listed_in(save, events)))
}

/// How far a snapshot has come on disk.
struct Progress {
    snapshot: bool,
    latest: bool,
    index: Option<Seq<char>>,
}

/// How far a snapshot has come at a stage.
spec fn progress_at<B>(stage: SavingStage<B>) -> Progress {
    match stage {
        SavingStage::CreatingHistory => Progress { snapshot: false, latest: false, index: None },
        SavingStage::WritingSnapshot(_) => Progress { snapshot: false, latest: false, index: None },
        SavingStage::WritingLatest(_) => Progress { snapshot: true, latest: false, index: None },
        _ => Progress { snapshot: true, latest: true, index: None },
    }
}

/// What a file should hold when a snapshot has come that far.
spec fn due<B>(save: Saving<B>, disk: Disk<B>, progress: Progress, place: Place<B>) -> Option<Seq<char>> {
    if progress.snapshot && place == save.snapshot_file() {
        Some(save.board)
    } else if progress.latest && place == latest_place(save.exe_dir) {
        Some(save.board)
    } else if progress.index is Some && place == index_place(save.exe_dir) {
        progress.index
    } else {
        held(disk, place)
    }
}

/// The disk `now`, when a snapshot has come that far from the disk `disk`: each
/// file holds what it should, unless it had to go and is gone.
spec fn tally<B>(
    save: Saving<B>,
    disk: Disk<B>,
    events: Seq<Event<B>>,
    progress: Progress,
    now: Disk<B>,
) -> bool {
    forall|place: Place<B>|
        !is_temp(place) ==> #[trigger] held(now, place) == due(save, disk, progress, place) || (held(now, place)
            is None && may_go(save, events, place) && !(progress.index is Some && place == index_place(
            save.exe_dir,
        )))
}

/// A stage of saving a snapshot, with what was answered so far.
spec fn on_course<B>(save: Saving<B>, events: Seq<Event<B>>, saving: Saving<B>, now: Disk<B>) -> bool {
    let listed = listed_in(save, events);
    let gone = outlived(listed);
    &&& saving == save.at(saving.stage)
    &&& match saving.stage {
        SavingStage::CreatingHistory => index_read(events) is None,
        SavingStage::WritingSnapshot(write) => {
            &&& index_read(events) is None
            &&& on_the_way(write, history_place(save.exe_dir), save.snapshot_file(), save.board, now)
        },
        SavingStage::WritingLatest(write) => {
            &&& index_read(events) is None
            &&& on_the_way(write, data_place(save.exe_dir), latest_place(save.exe_dir), save.board, now)
        },
        SavingStage::ReadingIndex => index_read(events) is None,
        SavingStage::Removing { index, oldest, rest } => {
            &&& index_read(events) is Some
            &&& index == kept(listed)
            &&& rest.len() < gone.len()
            &&& oldest == gone[gone.len() - rest.len() - 1]
            &&& rest == gone.skip(gone.len() - rest.len())
        },
        SavingStage::Encoding { index } => {
            &&& index_read(events) is Some
            &&& index == kept(listed)
        },
        SavingStage::WritingIndex { index, write } => {
            &&& index_read(events) is Some
            &&& index == kept(listed)
            &&& text_encoded(events) is Some
            &&& on_the_way(
                write,
                history_place(save.exe_dir),
                index_place(save.exe_dir),
                text_encoded(events)->0,
                now,
            )
        },
    }
}

/// The good end of saving a snapshot, with what was answered.
spec fn listed_at_end<B>(save: Saving<B>, events: Seq<Event<B>>, entries: Seq<EntryData>, now: Disk<B>) -> bool {
    &&& index_read(events) is Some
    &&& entries == kept(listed_in(save, events))
    &&& text_encoded(events) is Some
    &&& held(now, index_place(save.exe_dir)) == text_encoded(events)
}

/// No file is damaged: each one is as it was before, or holds its whole new
/// text, or had to go and is gone.
pub open spec fn undamaged<B>(save: Saving<B>, disk: Disk<B>, events: Seq<Event<B>>, now: Disk<B>) -> bool {
    forall|place: Place<B>|
        !is_temp(place) ==> {
            ||| #[trigger] held(now, place) == held(disk, place)
            ||| place == latest_place(save.exe_dir) && held(now, place) == Some(save.board)
            ||| place == save.snapshot_file() && held(now, place) == Some(save.board)
            ||| place == index_place(save.exe_dir) && text_encoded(events) is Some && held(now, place)
                == text_encoded(events)
            ||| may_go(save, events, place) && held(now, place) is None
        }
}

/// The board saved last is not ahead of the snapshots: its file is as it was, or
/// the new snapshot is in its own file.
pub open spec fn in_order<B>(save: Saving<B>, disk: Disk<B>, now: Disk<B>) -> bool {
    ||| held(now, latest_place(save.exe_dir)) == held(disk, latest_place(save.exe_dir))
    ||| held(now, save.snapshot_file()) == Some(save.board)
}

/// Saving a snapshot that stands at its beginning.
pub open spec fn at_beginning<B>(save: Saving<B>, stamp: Seq<char>) -> bool {
    &&& save.stage is CreatingHistory
    &&& save.entry.filename == snapshot_name_spec(stamp)
    &&& is_plain_name_spec(stamp)
}

/// The file of a snapshot goes by the name of a file.
proof fn lemma_snapshot_is_file_name(stamp: Seq<char>)
    requires
        is_plain_name_spec(stamp),
    ensures
        is_file_name(snapshot_name_spec(stamp)),
{
    reveal_strlit("state_");
    reveal_strlit(".json");
    reveal_strlit(".");
    reveal_strlit("..");
    let name = snapshot_name_spec(stamp);
    let n = stamp.len() as int;
    assert(name.len() == 6 + n + 5);
    assert(name[1] == 't');
    assert forall|i: int| 0 <= i < name.len() implies name[i] != '/' && name[i] != '\\' by {
        if 6 <= i < 6 + n {
            assert(name[i] == stamp[i - 6]);
            assert(stamp.contains(stamp[i - 6]));
        }
    }
}

/// Without a list nothing has to go.
proof fn lemma_nothing_goes()
    ensures
        outlived(Seq::<EntryData>::empty()).len() == 0,
{
    let none = Seq::<EntryData>::empty();
    retired(none).lemma_filter_len(unneeded(kept(none)));
}

/// What has to go are old snapshots, and their files are those of none that
/// stays.
proof fn lemma_outlived(listed: Seq<EntryData>, i: int)
    requires
        0 <= i < outlived(listed).len(),
    ensures
        listed.contains(outlived(listed)[i]),
        !names_file(kept(listed), outlived(listed)[i].filename),
{
    let goes = unneeded(kept(listed));
    let old = retired(listed);
    old.lemma_filter_pred(goes, i);
    assert(outlived(listed).contains(outlived(listed)[i]));
    old.lemma_filter_contains_rev(goes, outlived(listed)[i]);
    let k = choose|k: int| 0 <= k < old.len() && old[k] == outlived(listed)[i];
    assert(listed[k] == old[k]);
}

/// The file of a snapshot that stays does not have to go.
pub(crate) proof fn lemma_kept_stays<B>(save: Saving<B>, events: Seq<Event<B>>, i: int)
    requires
        0 <= i < kept(listed_in(save, events)).len(),
    ensures
        !may_go(save, events, snapshot_place(save.exe_dir, kept(listed_in(save, events))[i].filename)),
{
    let listed = listed_in(save, events);
    let place = snapshot_place(save.exe_dir, kept(listed)[i].filename);
    assert(place.parts.last() == kept(listed)[i].filename);
    assert forall|k: int| 0 <= k < outlived(listed).len() implies place != snapshot_place(
        save.exe_dir,
        #[trigger] outlived(listed)[k].filename,
    ) by {
        lemma_outlived(listed, k);
        assert(snapshot_place(save.exe_dir, outlived(listed)[k].filename).parts.last() == outlived(
            listed,
        )[k].filename);
    }
}

/// Neither the file of the new snapshot nor that of the board saved last has to
/// go.
proof fn lemma_new_files_stay<B>(save: Saving<B>, events: Seq<Event<B>>)
    ensures
        !may_go(save, events, save.snapshot_file()),
        !may_go(save, events, latest_place(save.exe_dir)),
{
    let listed = listed_in(save, events);
    match index_read(events) {
        Some(loaded) => {
            let last = kept(listed).len() - 1;
            assert(kept(listed)[last] == save.entry);
            lemma_kept_stays(save, events, last);
        },
        None => {
            lemma_nothing_goes();
        },
    }
    assert(latest_place(save.exe_dir).parts.len() == 2);
    assert forall|k: int| 0 <= k < outlived(listed).len() implies latest_place(save.exe_dir) != snapshot_place(
        save.exe_dir,
        #[trigger] outlived(listed)[k].filename,
    ) by {
        assert(snapshot_place(save.exe_dir, outlived(listed)[k].filename).parts.len() == 3);
    }
}

/// The three files that a snapshot goes to are three different ones, and none
/// that a text is written to first.
proof fn lemma_files<B>(save: Saving<B>, stamp: Seq<char>)
    requires
        save.entry.filename == snapshot_name_spec(stamp),
    ensures
        !is_temp(save.snapshot_file()),
        !is_temp(latest_place(save.exe_dir)),
        !is_temp(index_place(save.exe_dir)),
        save.snapshot_file() != latest_place(save.exe_dir),
        save.snapshot_file() != index_place(save.exe_dir),
        latest_place(save.exe_dir) != index_place(save.exe_dir),
        forall|name: Seq<char>| #[trigger] snapshot_place(save.exe_dir, name) != latest_place(save.exe_dir),
{
    reveal_strlit("state_");
    reveal_strlit("latest.json");
    reveal_strlit("index.json");
    let name = save.entry.filename;
    assert(("state_"@ + stamp)[0] == 's');
    assert(name[0] == 's');
    assert(save.snapshot_file().parts.last() == name);
    lemma_not_temp(save.snapshot_file());
    assert(latest_place(save.exe_dir).parts.last() == "latest.json"@);
    lemma_not_temp(latest_place(save.exe_dir));
    assert(index_place(save.exe_dir).parts.last() == "index.json"@);
    lemma_not_temp(index_place(save.exe_dir));
    assert(latest_place(save.exe_dir).parts.len() == 2);
    assert(index_place(save.exe_dir).parts.len() == 3);
    assert(save.snapshot_file().parts.len() == 3);
    assert forall|name: Seq<char>| #[trigger]
        snapshot_place(save.exe_dir, name) != latest_place(save.exe_dir) by {
        assert(snapshot_place(save.exe_dir, name).parts.len() == 3);
    }
}

/// One answer while a snapshot is saved: where it leads.
proof fn lemma_course_answered<B>(
    save: Saving<B>,
    stamp: Seq<char>,
    events: Seq<Event<B>>,
    saving: Saving<B>,
    now: Disk<B>,
    event: Event<B>,
)
    requires
        at_beginning(save, stamp),
        on_course(save, events, saving, now),
        is_answer(saving.asked(), event.answer),
        effect(now, saving.asked(), event.answer, event.disk),
    ensures
        match saving.next(event.answer) {
            SaveStep::Wait(next) => on_course(save, events.push(event), next, event.disk),
            SaveStep::End(Ok(entries)) => listed_at_end(save, events.push(event), entries, event.disk),
            SaveStep::End(Err(_)) => true,
        },
{
    lemma_files(save, stamp);
    let more = events.push(event);
    assert(more.drop_last() =~= events);
    let answer = event.answer;
    let after = event.disk;
    let gone = outlived(listed_in(save, events));
    match saving.stage {
        SavingStage::CreatingHistory => {},
        SavingStage::WritingSnapshot(write) => {
            lemma_write_answered(
                write,
                history_place(save.exe_dir),
                save.snapshot_file(),
                save.board,
                now,
                answer,
                after,
            );
        },
        SavingStage::WritingLatest(write) => {
            lemma_write_answered(
                write,
                data_place(save.exe_dir),
                latest_place(save.exe_dir),
                save.board,
                now,
                answer,
                after,
            );
        },
        SavingStage::ReadingIndex => {
            assert(index_read(more) == Some(answer->Index_0));
        },
        SavingStage::Removing { rest, .. } => {
            if rest.len() > 0 {
                assert(rest[0] == gone[gone.len() - rest.len()]);
                assert(rest.skip(1) =~= gone.skip(gone.len() - rest.len() + 1));
            }
        },
        SavingStage::Encoding { .. } => {},
        SavingStage::WritingIndex { write, .. } => {
            lemma_write_answered(
                write,
                history_place(save.exe_dir),
                index_place(save.exe_dir),
                text_encoded(events)->0,
                now,
                answer,
                after,
            );
        },
    }
}

proof fn lemma_course<B>(save: Saving<B>, stamp: Seq<char>, disk: Disk<B>, events: Seq<Event<B>>)
    requires
        at_beginning(save, stamp),
    ensures
        match save_run(save, disk, events) {
            Some((SaveStep::Wait(saving), now)) => on_course(save, events, saving, now),
            Some((SaveStep::End(Ok(entries)), now)) => listed_at_end(save, events, entries, now),
            _ => true,
        },
    decreases events.len(),
{
    if events.len() == 0 {
        assert(save.at(save.stage) == save);
    } else {
        lemma_course(save, stamp, disk, events.drop_last());
        if let (Some((SaveStep::Wait(saving), before)), Some(_)) = (
            save_run(save, disk, events.drop_last()),
            save_run(save, disk, events),
        ) {
            lemma_course_answered(save, stamp, events.drop_last(), saving, before, events.last());
            assert(events.drop_last().push(events.last()) =~= events);
        }
    }
}

/// The list is read once: before that, nothing has to go.
proof fn lemma_fewer_events<B>(save: Saving<B>, stamp: Seq<char>, disk: Disk<B>, events: Seq<Event<B>>)
    requires
        at_beginning(save, stamp),
        events.len() > 0,
        save_run(save, disk, events) is Some,
        removes_files(save, events),
    ensures
        removes_files(save, events.drop_last()),
{
    lemma_course(save, stamp, disk, events.drop_last());
    lemma_nothing_goes();
}

/// One answer while a snapshot is saved: what it makes of the disk.
proof fn lemma_disk_answered<B>(
    save: Saving<B>,
    stamp: Seq<char>,
    disk: Disk<B>,
    events: Seq<Event<B>>,
    saving: Saving<B>,
    now: Disk<B>,
    event: Event<B>,
)
    requires
        at_beginning(save, stamp),
        removes_files(save, events),
        on_course(save, events, saving, now),
        tally(save, disk, events, progress_at(saving.stage), now),
        is_answer(saving.asked(), event.answer),
        effect(now, saving.asked(), event.answer, event.disk),
    ensures
        match saving.next(event.answer) {
            SaveStep::Wait(next) => tally(save, disk, events.push(event), progress_at(next.stage), event.disk),
            SaveStep::End(Ok(_)) => tally(
                save,
                disk,
                events.push(event),
                Progress { snapshot: true, latest: true, index: text_encoded(events.push(event)) },
                event.disk,
            ),
            SaveStep::End(Err(_)) => tally(
                save,
                disk,
                events.push(event),
                progress_at(saving.stage),
                event.disk,
            ),
        },
{
    lemma_files(save, stamp);
    let more = events.push(event);
    assert(more.drop_last() =~= events);
    let answer = event.answer;
    let after = event.disk;
    let gone = outlived(listed_in(save, events));
    match saving.stage {
        SavingStage::CreatingHistory => {},
        SavingStage::WritingSnapshot(write) => {
            lemma_write_answered(
                write,
                history_place(save.exe_dir),
                save.snapshot_file(),
                save.board,
                now,
                answer,
                after,
            );
        },
        SavingStage::WritingLatest(write) => {
            lemma_write_answered(
                write,
                data_place(save.exe_dir),
                latest_place(save.exe_dir),
                save.board,
                now,
                answer,
                after,
            );
        },
        SavingStage::ReadingIndex => {
            lemma_nothing_goes();
        },
        SavingStage::Removing { oldest, rest, .. } => {
            let k = gone.len() - rest.len() - 1;
            assert(snapshot_place(save.exe_dir, oldest.filename).parts.last() == gone[k].filename);
            assert(may_go(save, events, snapshot_place(save.exe_dir, gone[k].filename)));
        },
        SavingStage::Encoding { .. } => {},
        SavingStage::WritingIndex { write, .. } => {
            lemma_write_answered(
                write,
                history_place(save.exe_dir),
                index_place(save.exe_dir),
                text_encoded(events)->0,
                now,
                answer,
                after,
            );
        },
    }
}

proof fn lemma_disk<B>(save: Saving<B>, stamp: Seq<char>, disk: Disk<B>, events: Seq<Event<B>>)
    requires
        at_beginning(save, stamp),
        removes_files(save, events),
    ensures
        match save_run(save, disk, events) {
            Some((SaveStep::Wait(saving), now)) => tally(save, disk, events, progress_at(saving.stage), now),
            Some((SaveStep::End(Ok(_)), now)) => tally(
                save,
                disk,
                events,
                Progress { snapshot: true, latest: true, index: text_encoded(events) },
                now,
            ),
            Some((SaveStep::End(Err(_)), now)) => exists|stage: SavingStage<B>|
                {
                    &&& tally(save, disk, events, #[trigger] progress_at(stage), now)
                    &&& progress_at(stage).latest || index_read(events) is None
                },
            None => true,
        },
    decreases events.len(),
{
    if events.len() > 0 {
        if let (Some((SaveStep::Wait(saving), before)), Some(_)) = (
            save_run(save, disk, events.drop_last()),
            save_run(save, disk, events),
        ) {
            lemma_fewer_events(save, stamp, disk, events);
            lemma_disk(save, stamp, disk, events.drop_last());
            lemma_course(save, stamp, disk, events.drop_last());
            lemma_disk_answered(save, stamp, disk, events.drop_last(), saving, before, events.last());
            assert(events.drop_last().push(events.last()) =~= events);
        }
    }
}

/// The disk as a run leaves it: as it is at its end, or, if the power goes
/// before, during the work that is being waited for, as that leaves it.
pub open spec fn left_by<B>(step: SaveStep<B>, now: Disk<B>, after: Disk<B>) -> bool {
    match step {
        SaveStep::Wait(saving) => interrupted(now, saving.asked(), after),
        SaveStep::End(_) => after == now,
    }
}

/// Saving a snapshot damages no file, whatever was answered so far, and even if
/// the power goes during the work that is being waited for: each file is as it
/// was before, or holds its whole new text, or had to go and is gone. (Files
/// named like those that texts are written to first are left out, and so is a
/// list on disk in which something else than the name of a file stands for one
/// that has to go.)
pub proof fn law_save_damages_nothing<B>(
    save: Saving<B>,
    stamp: Seq<char>,
    disk: Disk<B>,
    events: Seq<Event<B>>,
    step: SaveStep<B>,
    now: Disk<B>,
    after: Disk<B>,
)
    requires
        at_beginning(save, stamp),
        removes_files(save, events),
        save_run(save, disk, events) == Some((step, now)),
        left_by(step, now, after),
    ensures
        undamaged(save, disk, events, now),
        undamaged(save, disk, events, after),
{
    lemma_disk(save, stamp, disk, events);
    lemma_course(save, stamp, disk, events);
    lemma_files(save, stamp);
    if let SaveStep::Wait(saving) = step {
        lemma_save_interrupted(save, stamp, disk, events, saving, now, after);
    }
}

/// The board saved last is never ahead of the snapshots: whether saving ends
/// well, fails, or is cut short by the power going, if the file of that board
/// has changed, the new snapshot is in its own file. (A list on disk in which
/// something else than the name of a file stands for one that has to go is left
/// out.)
pub proof fn law_latest_has_its_snapshot<B>(
    save: Saving<B>,
    stamp: Seq<char>,
    disk: Disk<B>,
    events: Seq<Event<B>>,
    step: SaveStep<B>,
    now: Disk<B>,
    after: Disk<B>,
)
    requires
        at_beginning(save, stamp),
        removes_files(save, events),
        save_run(save, disk, events) == Some((step, now)),
        left_by(step, now, after),
    ensures
        in_order(save, disk, after),
{
    lemma_disk(save, stamp, disk, events);
    lemma_course(save, stamp, disk, events);
    lemma_files(save, stamp);
    lemma_new_files_stay(save, events);
    if let SaveStep::Wait(saving) = step {
        lemma_save_interrupted(save, stamp, disk, events, saving, now, after);
    }
}

/// The list comes after the board: its file is as it was and no file is gone, or
/// the file of the board saved last holds the new board.
pub open spec fn list_comes_last<B>(save: Saving<B>, disk: Disk<B>, now: Disk<B>) -> bool {
    ||| held(now, latest_place(save.exe_dir)) == Some(save.board)
    ||| held(now, index_place(save.exe_dir)) == held(disk, index_place(save.exe_dir)) && forall|place: Place<B>|
        !is_temp(place) && held(disk, place) is Some ==> #[trigger] held(now, place) is Some
}

/// The list is written, and old files go, only once the board is in the file of
/// the board saved last: whether saving ends well, fails, or is cut short by the
/// power going. (A list on disk in which something else than the name of a file
/// stands for one that has to go is left out.)
pub proof fn law_list_comes_after_the_board<B>(
    save: Saving<B>,
    stamp: Seq<char>,
    disk: Disk<B>,
    events: Seq<Event<B>>,
    step: SaveStep<B>,
    now: Disk<B>,
    after: Disk<B>,
)
    requires
        at_beginning(save, stamp),
        removes_files(save, events),
        save_run(save, disk, events) == Some((step, now)),
        left_by(step, now, after),
    ensures
        list_comes_last(save, disk, after),
{
    lemma_disk(save, stamp, disk, events);
    lemma_course(save, stamp, disk, events);
    lemma_files(save, stamp);
    lemma_new_files_stay(save, events);
    if let SaveStep::Wait(saving) = step {
        lemma_save_interrupted(save, stamp, disk, events, saving, now, after);
    }
    if index_read(events) is None {
        lemma_nothing_goes();
    }
}

/// The power going while a snapshot is saved.
proof fn lemma_save_interrupted<B>(
    save: Saving<B>,
    stamp: Seq<char>,
    disk: Disk<B>,
    events: Seq<Event<B>>,
    saving: Saving<B>,
    now: Disk<B>,
    after: Disk<B>,
)
    requires
        at_beginning(save, stamp),
        removes_files(save, events),
        on_course(save, events, saving, now),
        tally(save, disk, events, progress_at(saving.stage), now),
        interrupted(now, saving.asked(), after),
    ensures
        undamaged(save, disk, events, after),
        in_order(save, disk, after),
        list_comes_last(save, disk, after),
{
    lemma_files(save, stamp);
    lemma_new_files_stay(save, events);
    if index_read(events) is None {
        lemma_nothing_goes();
    }
    let gone = outlived(listed_in(save, events));
    match saving.stage {
        SavingStage::WritingSnapshot(write) => {
            lemma_write_interrupted(
                write,
                history_place(save.exe_dir),
                save.snapshot_file(),
                save.board,
                now,
                after,
            );
        },
        SavingStage::WritingLatest(write) => {
            lemma_write_interrupted(
                write,
                data_place(save.exe_dir),
                latest_place(save.exe_dir),
                save.board,
                now,
                after,
            );
        },
        SavingStage::Removing { oldest, rest, .. } => {
            let k = gone.len() - rest.len() - 1;
            assert(snapshot_place(save.exe_dir, oldest.filename).parts.last() == gone[k].filename);
            assert(may_go(save, events, snapshot_place(save.exe_dir, gone[k].filename)));
        },
        SavingStage::WritingIndex { write, .. } => {
            lemma_write_interrupted(
                write,
                history_place(save.exe_dir),
                index_place(save.exe_dir),
                text_encoded(events)->0,
                now,
                after,
            );
        },
        _ => {},
    }
}

/// Every removal of a file during these events was done, or found no file.
pub open spec fn all_removed<B>(save: Saving<B>, disk: Disk<B>, events: Seq<Event<B>>) -> bool {
    forall|i: int| 0 <= i < events.len() ==> #[trigger] removed_at(save, disk, events, i)
}

/// If this event answers the removal of a file, it was done, or there was no
/// such file.
pub open spec fn removed_at<B>(save: Saving<B>, disk: Disk<B>, events: Seq<Event<B>>, i: int) -> bool {
    match save_run(save, disk, events.take(i)) {
        Some((SaveStep::Wait(saving), before)) => match saving.asked() {
            Asked::RemoveFile { file } => events[i].answer is Done || held(before, file) is None,
            _ => true,
        },
        _ => true,
    }
}

/// The files of these snapshots are gone, but for those named like the files
/// that texts are written to first, or like the list itself.
pub open spec fn gone_files<B>(exe_dir: B, entries: Seq<EntryData>, now: Disk<B>) -> bool {
    forall|i: int|
        0 <= i < entries.len() ==> {
            let place = snapshot_place(exe_dir, #[trigger] entries[i].filename);
            !is_temp(place) && place != index_place(exe_dir) ==> held(now, place) is None
        }
}

/// The files whose removal was answered are gone.
proof fn lemma_removed<B>(save: Saving<B>, stamp: Seq<char>, disk: Disk<B>, events: Seq<Event<B>>)
    requires
        at_beginning(save, stamp),
        removes_files(save, events),
        all_removed(save, disk, events),
    ensures
        ({
            let gone = outlived(listed_in(save, events));
            match save_run(save, disk, events) {
                Some((SaveStep::Wait(saving), now)) => match saving.stage {
                    SavingStage::Removing { rest, .. } => gone_files(
                        save.exe_dir,
                        gone.take(gone.len() - rest.len() - 1),
                        now,
                    ),
                    SavingStage::Encoding { .. } => gone_files(save.exe_dir, gone, now),
                    SavingStage::WritingIndex { .. } => gone_files(save.exe_dir, gone, now),
                    _ => true,
                },
                Some((SaveStep::End(Ok(_)), now)) => gone_files(save.exe_dir, gone, now),
                _ => true,
            }
        }),
    decreases events.len(),
{
    let fewer = events.drop_last();
    if events.len() > 0 {
        if let (Some((SaveStep::Wait(saving), before)), Some(_)) = (
            save_run(save, disk, fewer),
            save_run(save, disk, events),
        ) {
            lemma_fewer_events(save, stamp, disk, events);
            assert forall|i: int| 0 <= i < fewer.len() implies #[trigger] removed_at(save, disk, fewer, i) by {
                assert(removed_at(save, disk, events, i));
                assert(fewer.take(i) =~= events.take(i));
            }
            lemma_removed(save, stamp, disk, fewer);
            lemma_course(save, stamp, disk, fewer);
            lemma_files(save, stamp);
            let event = events.last();
            let gone = outlived(listed_in(save, events));
            match saving.stage {
                SavingStage::Removing { oldest, rest, .. } => {
                    let k = gone.len() - rest.len() - 1;
                    assert(removed_at(save, disk, events, events.len() - 1));
                    assert(events.take(events.len() - 1) =~= fewer);
                    let file = snapshot_place(save.exe_dir, oldest.filename);
                    assert(file.parts.last() == gone[k].filename);
                    assert(held(event.disk, file) is None);
                    assert forall|i: int| 0 <= i <= k implies {
                        let place = snapshot_place(save.exe_dir, #[trigger] gone[i].filename);
                        !is_temp(place) && place != index_place(save.exe_dir) ==> held(event.disk, place) is None
                    } by {
                        if i < k {
                            assert(gone.take(k)[i] == gone[i]);
                        }
                    }
                    if rest.len() > 0 {
                        assert(rest.skip(1).len() == rest.len() - 1);
                    }
                },
                SavingStage::WritingIndex { write, .. } => {
                    lemma_write_answered(
                        write,
                        history_place(save.exe_dir),
                        index_place(save.exe_dir),
                        text_encoded(fewer)->0,
                        before,
                        event.answer,
                        event.disk,
                    );
                },
                _ => {},
            }
        }
    }
}

/// A snapshot that was saved can be read back. When saving ends well, the
/// snapshot's own file and the file of the board saved last hold the board; the
/// file of the list holds what the list was turned into; and the list that is
/// given back is the one that was on disk with the new snapshot at its end, less
/// the oldest. The files that had to go are gone, if no removal failed, and no
/// other file has changed. (A list on disk in which something else than the name
/// of a file stands for one that has to go is left out.)
pub proof fn law_saved_board_is_there<B>(
    save: Saving<B>,
    stamp: Seq<char>,
    disk: Disk<B>,
    events: Seq<Event<B>>,
    entries: Seq<EntryData>,
    now: Disk<B>,
)
    requires
        at_beginning(save, stamp),
        removes_files(save, events),
        save_run(save, disk, events) == Some((SaveStep::<B>::End(Ok(entries)), now)),
    ensures
        held(now, latest_place(save.exe_dir)) == Some(save.board),
        held(now, save.snapshot_file()) == Some(save.board),
        text_encoded(events) is Some,
        held(now, index_place(save.exe_dir)) == text_encoded(events),
        index_read(events) is Some,
        entries == kept(save.listed(index_read(events)->0)),
        entries.last() == save.entry,
        all_removed(save, disk, events) ==> gone_files(
            save.exe_dir,
            outlived(save.listed(index_read(events)->0)),
            now,
        ),
        forall|place: Place<B>|
            !is_temp(place) && place != latest_place(save.exe_dir) && place != save.snapshot_file() && place
                != index_place(save.exe_dir) && !may_go(save, events, place) ==> #[trigger] held(now, place)
                == held(disk, place),
{
    lemma_course(save, stamp, disk, events);
    lemma_disk(save, stamp, disk, events);
    lemma_files(save, stamp);
    lemma_new_files_stay(save, events);
    if all_removed(save, disk, events) {
        lemma_removed(save, stamp, disk, events);
    }
}

/// Whatever the list of snapshots was turned into can be understood again, by
/// `decode`.
pub open spec fn faithful<B>(
    save: Saving<B>,
    disk: Disk<B>,
    events: Seq<Event<B>>,
    decode: spec_fn(Seq<char>) -> Option<Seq<EntryData>>,
) -> bool {
    forall|i: int| 0 <= i < events.len() ==> #[trigger] faithful_at(save, disk, events, decode, i)
}

/// What the list of snapshots was turned into by this event can be understood
/// again.
pub open spec fn faithful_at<B>(
    save: Saving<B>,
    disk: Disk<B>,
    events: Seq<Event<B>>,
    decode: spec_fn(Seq<char>) -> Option<Seq<EntryData>>,
    i: int,
) -> bool {
    match save_run(save, disk, events.take(i)) {
        Some((SaveStep::Wait(saving), _)) => match (saving.asked(), events[i].answer) {
            (Asked::EncodeIndex { index }, Answer::Encoded(text)) => decode(text) == Some(index),
            _ => true,
        },
        _ => true,
    }
}

proof fn lemma_faithful<B>(
    save: Saving<B>,
    stamp: Seq<char>,
    disk: Disk<B>,
    events: Seq<Event<B>>,
    decode: spec_fn(Seq<char>) -> Option<Seq<EntryData>>,
)
    requires
        at_beginning(save, stamp),
        faithful(save, disk, events, decode),
    ensures
        match save_run(save, disk, events) {
            Some((SaveStep::Wait(saving), _)) => saving.stage matches SavingStage::WritingIndex { index, .. }
                ==> text_encoded(events) is Some && decode(text_encoded(events)->0) == Some(index),
            Some((SaveStep::End(Ok(entries)), _)) => text_encoded(events) is Some && decode(
                text_encoded(events)->0,
            ) == Some(entries),
            _ => true,
        },
    decreases events.len(),
{
    if events.len() > 0 {
        let before = events.drop_last();
        assert forall|i: int| 0 <= i < before.len() implies #[trigger] faithful_at(
            save,
            disk,
            before,
            decode,
            i,
        ) by {
            assert(faithful_at(save, disk, events, decode, i));
            assert(before.take(i) =~= events.take(i));
        }
        lemma_faithful(save, stamp, disk, before, decode);
        lemma_course(save, stamp, disk, before);
        assert(faithful_at(save, disk, events, decode, events.len() - 1));
        assert(events.take(events.len() - 1) =~= before);
    }
}

/// The list of snapshots in this file, as `decode` understands it; `None` where
/// there is no file or it is not understood.
pub open spec fn list_at<B>(
    disk: Disk<B>,
    file: Place<B>,
    decode: spec_fn(Seq<char>) -> Option<Seq<EntryData>>,
) -> Option<Seq<EntryData>> {
    match held(disk, file) {
        Some(text) => decode(text),
        None => None,
    }
}

/// The list of snapshots that is on disk, as `decode` understands it.
pub open spec fn list_on<B>(
    exe_dir: B,
    disk: Disk<B>,
    decode: spec_fn(Seq<char>) -> Option<Seq<EntryData>>,
) -> Option<Seq<EntryData>> {
    list_at(disk, index_place(exe_dir), decode)
}

/// The list that is given back when a snapshot was saved is on disk.
pub(crate) proof fn lemma_list_written<B>(
    save: Saving<B>,
    stamp: Seq<char>,
    disk: Disk<B>,
    events: Seq<Event<B>>,
    entries: Seq<EntryData>,
    now: Disk<B>,
    decode: spec_fn(Seq<char>) -> Option<Seq<EntryData>>,
)
    requires
        at_beginning(save, stamp),
        save_run(save, disk, events) == Some((SaveStep::<B>::End(Ok(entries)), now)),
        faithful(save, disk, events, decode),
    ensures
        list_on(save.exe_dir, now, decode) == Some(entries),
        index_read(events) is Some,
        entries == kept(save.listed(index_read(events)->0)),
{
    lemma_course(save, stamp, disk, events);
    lemma_faithful(save, stamp, disk, events, decode);
}

/// The list that is given back when a snapshot was saved is on disk, and is what
/// the list of snapshots (`loaded` from there the next time) then tells, provided
/// that what a list is turned into can be understood again.
pub proof fn law_list_is_read_back<B>(
    save: Saving<B>,
    stamp: Seq<char>,
    disk: Disk<B>,
    events: Seq<Event<B>>,
    entries: Seq<EntryData>,
    now: Disk<B>,
    decode: spec_fn(Seq<char>) -> Option<Seq<EntryData>>,
    loaded: Option<HistoryIndex>,
)
    requires
        at_beginning(save, stamp),
        save_run(save, disk, events) == Some((SaveStep::<B>::End(Ok(entries)), now)),
        faithful(save, disk, events, decode),
        loaded_data(loaded) == list_on(save.exe_dir, now, decode),
    ensures
        list_on(save.exe_dir, now, decode) == Some(entries),
        or_empty(loaded_data(loaded)) == entries,
{
    lemma_list_written(save, stamp, disk, events, entries, now, decode);
}

/// The list of snapshots that was read during these events is the one that was
/// on disk then, as `decode` understands it.
pub open spec fn reads_list<B>(
    save: Saving<B>,
    disk: Disk<B>,
    events: Seq<Event<B>>,
    decode: spec_fn(Seq<char>) -> Option<Seq<EntryData>>,
) -> bool {
    forall|i: int| 0 <= i < events.len() ==> #[trigger] reads_list_at(save, disk, events, decode, i)
}

/// If a list of snapshots was read by this event, it is the one that was on disk
/// then, in the file that was asked for.
pub open spec fn reads_list_at<B>(
    save: Saving<B>,
    disk: Disk<B>,
    events: Seq<Event<B>>,
    decode: spec_fn(Seq<char>) -> Option<Seq<EntryData>>,
    i: int,
) -> bool {
    match save_run(save, disk, events.take(i)) {
        Some((SaveStep::Wait(saving), before)) => match saving.asked() {
            Asked::ReadIndex { file } => events[i].answer == Answer::Index(list_at(before, file, decode)),
            _ => true,
        },
        _ => true,
    }
}

/// Until the list is read, its file is as it was at the beginning.
pub(crate) proof fn lemma_list_read<B>(
    save: Saving<B>,
    stamp: Seq<char>,
    disk: Disk<B>,
    events: Seq<Event<B>>,
    decode: spec_fn(Seq<char>) -> Option<Seq<EntryData>>,
)
    requires
        at_beginning(save, stamp),
        save_run(save, disk, events) is Some,
        reads_list(save, disk, events, decode),
    ensures
        index_read(events) is Some ==> index_read(events)->0 == list_on(save.exe_dir, disk, decode),
    decreases events.len(),
{
    if events.len() > 0 {
        let fewer = events.drop_last();
        assert forall|i: int| 0 <= i < fewer.len() implies #[trigger] reads_list_at(
            save,
            disk,
            fewer,
            decode,
            i,
        ) by {
            assert(reads_list_at(save, disk, events, decode, i));
            assert(fewer.take(i) =~= events.take(i));
        }
        lemma_list_read(save, stamp, disk, fewer, decode);
        if events.last().answer is Index {
            lemma_course(save, stamp, disk, fewer);
            lemma_nothing_goes();
            lemma_disk(save, stamp, disk, fewer);
            lemma_files(save, stamp);
            assert(reads_list_at(save, disk, events, decode, events.len() - 1));
            assert(events.take(events.len() - 1) =~= fewer);
        }
    }
}

/// Every snapshot in the list has its file, with the name that the application
/// gives such files.
pub open spec fn complete<B>(exe_dir: B, entries: Seq<EntryData>, disk: Disk<B>) -> bool {
    &&& forall|i: int| 0 <= i < entries.len() ==> is_snapshot_name(#[trigger] entries[i].filename)
    &&& forall|i: int|
        0 <= i < entries.len() ==> held(disk, snapshot_place(exe_dir, #[trigger] entries[i].filename)) is Some
}

/// A name that the application gives to the file of a snapshot.
pub open spec fn is_snapshot_name(name: Seq<char>) -> bool {
    exists|stamp: Seq<char>| is_plain_name_spec(stamp) && name == #[trigger] snapshot_name_spec(stamp)
}

/// Where the list that was read has no other names than those that the
/// application gives, what goes are files.
pub(crate) proof fn lemma_own_names<B>(save: Saving<B>, stamp: Seq<char>, events: Seq<Event<B>>)
    requires
        at_beginning(save, stamp),
        index_read(events) is Some,
        forall|i: int|
            0 <= i < or_empty(index_read(events)->0).len() ==> is_snapshot_name(
                #[trigger] or_empty(index_read(events)->0)[i].filename,
            ),
    ensures
        forall|i: int|
            0 <= i < listed_in(save, events).len() ==> is_snapshot_name(
                #[trigger] listed_in(save, events)[i].filename,
            ),
        removes_files(save, events),
{
    let listed = listed_in(save, events);
    let gone = outlived(listed);
    assert(is_snapshot_name(snapshot_name_spec(stamp)));
    assert forall|i: int| 0 <= i < listed.len() implies is_snapshot_name(#[trigger] listed[i].filename) by {
        if i < listed.len() - 1 {
            assert(listed[i] == or_empty(index_read(events)->0)[i]);
        }
    }
    assert forall|i: int| 0 <= i < gone.len() implies is_file_name(#[trigger] gone[i].filename) by {
        lemma_outlived(listed, i);
        let k = choose|k: int| 0 <= k < listed.len() && listed[k] == gone[i];
        assert(is_snapshot_name(listed[k].filename));
        let its_stamp = choose|its_stamp: Seq<char>|
            is_plain_name_spec(its_stamp) && listed[k].filename == #[trigger] snapshot_name_spec(its_stamp);
        lemma_snapshot_is_file_name(its_stamp);
    }
}

/// Saving keeps the list complete: if every snapshot in the list had its file,
/// then so it is afterwards, also where stamps are saved more than once.
pub proof fn law_list_stays_complete<B>(
    save: Saving<B>,
    stamp: Seq<char>,
    disk: Disk<B>,
    events: Seq<Event<B>>,
    entries: Seq<EntryData>,
    now: Disk<B>,
)
    requires
        at_beginning(save, stamp),
        save_run(save, disk, events) == Some((SaveStep::<B>::End(Ok(entries)), now)),
        complete(save.exe_dir, or_empty(index_read(events)->0), disk),
    ensures
        complete(save.exe_dir, entries, now),
{
    let exe_dir = save.exe_dir;
    let before = or_empty(index_read(events)->0);
    lemma_course(save, stamp, disk, events);
    lemma_own_names(save, stamp, events);
    law_saved_board_is_there(save, stamp, disk, events, entries, now);
    let all = listed_in(save, events);
    let cut = surplus(all.len()) as int;
    assert forall|i: int| 0 <= i < entries.len() implies is_snapshot_name(#[trigger] entries[i].filename)
        && held(now, snapshot_place(exe_dir, entries[i].filename)) is Some by {
        let name = entries[i].filename;
        assert(entries[i] == all[cut + i]);
        lemma_kept_stays(save, events, i);
        let its_stamp = choose|its_stamp: Seq<char>|
            is_plain_name_spec(its_stamp) && name == #[trigger] snapshot_name_spec(its_stamp);
        lemma_snapshot_name(exe_dir, its_stamp);
        if cut + i < all.len() - 1 {
            assert(all[cut + i] == before[cut + i]);
        }
    }
}

/// The file of a snapshot is none of the application's other files.
pub(crate) proof fn lemma_snapshot_name<B>(exe_dir: B, stamp: Seq<char>)
    ensures
        !is_temp(snapshot_place(exe_dir, snapshot_name_spec(stamp))),
        snapshot_place(exe_dir, snapshot_name_spec(stamp)) != latest_place(exe_dir),
        snapshot_place(exe_dir, snapshot_name_spec(stamp)) != index_place(exe_dir),
{
    let save = Saving {
        exe_dir,
        entry: EntryData { filename: snapshot_name_spec(stamp), timestamp: seq![], columns: 0, cards: 0 },
        board: seq![],
        stage: SavingStage::CreatingHistory,
    };
    lemma_files(save, stamp);
}

/// How much is left to do of a file's replacement.
pub open spec fn write_rank<B>(stage: WriteStage<B>) -> nat {
    match stage {
        WriteStage::CreatingDir { .. } => 3,
        WriteStage::ReadingClock { .. } => 2,
        WriteStage::WritingTemp { .. } => 1,
        WriteStage::Renaming { .. } => 0,
    }
}

/// How much is left to do of saving a snapshot: whole stages, and steps of this
/// stage.
pub open spec fn save_rank<B>(saving: Saving<B>) -> (nat, nat) {
    match saving.stage {
        SavingStage::CreatingHistory => (6, 0),
        SavingStage::WritingSnapshot(write) => (5, write_rank(write)),
        SavingStage::WritingLatest(write) => (4, write_rank(write)),
        SavingStage::ReadingIndex => (3, 0),
        SavingStage::Removing { rest, .. } => (2, rest.len()),
        SavingStage::Encoding { .. } => (1, 0),
        SavingStage::WritingIndex { write, .. } => (0, write_rank(write)),
    }
}

/// Saving a snapshot comes to an end: with each answer less is left to do.
pub proof fn law_save_comes_to_an_end<B>(saving: Saving<B>, answer: Answer)
    requires
        is_answer(saving.asked(), answer),
    ensures
        saving.next(answer) matches SaveStep::Wait(next) ==> {
            ||| save_rank(next).0 < save_rank(saving).0
            ||| save_rank(next).0 == save_rank(saving).0 && save_rank(next).1 < save_rank(saving).1
        },
{
}

/// Saving a snapshot fails with the words of the work that failed, and only
/// then; that a file could not be removed does not count.
pub proof fn law_save_fails_with_its_cause<B>(saving: Saving<B>, answer: Answer, words: Seq<char>)
    requires
        is_answer(saving.asked(), answer),
    ensures
        saving.next(answer) == SaveStep::<B>::End(Err(words)) <==> answer == Answer::Failed(words)
            && !(saving.stage is Removing),
{
}

} // verus!
