//! What becomes of the files: a model of the disk, and what holds of it while a
//! board is saved, whatever fails and whenever the power goes.
use vstd::prelude::*;

use crate::files::{is_answer, temp_name_spec, Answer, Asked, WriteStage, WriteStep};
use crate::location::Place;
use crate::text::decimal_spec;

verus! {

/// The files on disk and their texts. Two places that differ are two files: the
/// file system tells names apart by their characters.
pub type Disk<B> = Map<Place<B>, Seq<char>>;

/// The text of a file, `None` where there is no such file.
pub open spec fn held<B>(disk: Disk<B>, file: Place<B>) -> Option<Seq<char>> {
    if disk.contains_key(file) {
        Some(disk[file])
    } else {
        None
    }
}

/// Two disks that differ in one file at most.
pub open spec fn same_but<B>(before: Disk<B>, after: Disk<B>, file: Place<B>) -> bool {
    forall|other: Place<B>| other != file ==> #[trigger] held(after, other) == held(before, other)
}

/// The disk after a file was given another name.
pub open spec fn renamed<B>(before: Disk<B>, from: Place<B>, to: Place<B>, after: Disk<B>) -> bool {
    before.contains_key(from) && after == before.remove(from).insert(to, before[from])
}

/// A name of one file in its directory: it has no separator, it is not the
/// directory itself nor the one above, and it does not begin with a drive.
pub open spec fn is_file_name(name: Seq<char>) -> bool {
    &&& !name.contains('/')
    &&& !name.contains('\\')
    &&& name.len() > 0
    &&& name != "."@
    &&& name != ".."@
    &&& !(name.len() > 1 && name[1] == ':')
}

/// What answered work does to the disk. A write that fails may leave anything
/// in its file; a rename or a removal that fails leaves the disk as it was. A
/// removal by what is not the name of a file may do anything. (What is written
/// and renamed, the application has named itself.)
pub open spec fn effect<B>(before: Disk<B>, asked: Asked<B>, answer: Answer, after: Disk<B>) -> bool {
    match asked {
        Asked::WriteText { file, text } => if answer is Done {
            after == before.insert(file, text)
        } else {
            same_but(before, after, file)
        },
        Asked::Rename { from, to } => if answer is Done {
            renamed(before, from, to, after)
        } else {
            after == before
        },
        Asked::RemoveFile { file } => is_file_name(file.parts.last()) ==> if answer is Done {
            after == before.remove(file)
        } else {
            after == before
        },
        _ => after == before,
    }
}

/// What the disk holds if the power goes during some work. A write may leave
/// anything in its file; a rename and a removal happen or do not. A removal by
/// what is not the name of a file may do anything.
pub open spec fn interrupted<B>(before: Disk<B>, asked: Asked<B>, after: Disk<B>) -> bool {
    match asked {
        Asked::WriteText { file, .. } => same_but(before, after, file),
        Asked::Rename { from, to } => after == before || renamed(before, from, to, after),
        Asked::RemoveFile { file } => is_file_name(file.parts.last()) ==> after == before || after
            == before.remove(file),
        _ => after == before,
    }
}

/// One answered piece of work: the answer, and the disk after it.
#[verifier::reject_recursive_types(B)]
pub struct Event<B> {
    pub answer: Answer,
    pub disk: Disk<B>,
}

/// Where replacing a file stands after these events, and what is on the disk.
/// `None` for events that cannot be.
pub open spec fn write_run<B>(
    write: WriteStage<B>,
    disk: Disk<B>,
    events: Seq<Event<B>>,
) -> Option<(WriteStep<B>, Disk<B>)>
    decreases events.len(),
{
    if events.len() == 0 {
        Some((WriteStep::Wait(write), disk))
    } else {
        let event = events.last();
        match write_run(write, disk, events.drop_last()) {
            Some((WriteStep::Wait(stage), before)) => if is_answer(stage.asked(), event.answer)
                && effect(before, stage.asked(), event.answer, event.disk) {
                Some((stage.next(event.answer), event.disk))
            } else {
                None
            },
            _ => None,
        }
    }
}

/// A place named like a file that a text is written to first.
pub open spec fn is_temp<B>(place: Place<B>) -> bool {
    exists|process: u32, nanos: Option<u128>|
        place.parts.len() > 0 && place.parts.last() == #[trigger] temp_name_spec(process, nanos)
}

/// Two disks on which all files are the same, but for those named like the ones
/// that texts are written to first.
pub open spec fn untouched<B>(before: Disk<B>, after: Disk<B>) -> bool {
    forall|place: Place<B>| !is_temp(place) ==> #[trigger] held(after, place) == held(before, place)
}

/// The same, with one more file left out.
pub open spec fn untouched_but<B>(before: Disk<B>, after: Disk<B>, file: Place<B>) -> bool {
    forall|place: Place<B>|
        !is_temp(place) && place != file ==> #[trigger] held(after, place) == held(before, place)
}

/// A stage of replacing `file` in `dir` by `text`, on a disk where the text is
/// ready once it takes its place.
pub open spec fn on_the_way<B>(
    stage: WriteStage<B>,
    dir: Place<B>,
    file: Place<B>,
    text: Seq<char>,
    disk: Disk<B>,
) -> bool {
    match stage {
        WriteStage::CreatingDir { dir: d, file: f, text: t } => d == dir && f == file && t == text,
        WriteStage::ReadingClock { dir: d, file: f, text: t } => d == dir && f == file && t == text,
        WriteStage::WritingTemp { temp, file: f, text: t } => is_temp(temp) && f == file && t == text,
        WriteStage::Renaming { temp, file: f } => is_temp(temp) && f == file && held(disk, temp) == Some(
            text,
        ),
    }
}

/// One answer on the way.
pub(crate) proof fn lemma_write_answered<B>(
    stage: WriteStage<B>,
    dir: Place<B>,
    file: Place<B>,
    text: Seq<char>,
    disk: Disk<B>,
    answer: Answer,
    after: Disk<B>,
)
    requires
        !is_temp(file),
        on_the_way(stage, dir, file, text, disk),
        is_answer(stage.asked(), answer),
        effect(disk, stage.asked(), answer, after),
    ensures
        match stage.next(answer) {
            WriteStep::Wait(next) => on_the_way(next, dir, file, text, after) && untouched(disk, after),
            WriteStep::End(Ok(_)) => held(after, file) == Some(text) && untouched_but(disk, after, file),
            WriteStep::End(Err(_)) => untouched(disk, after),
        },
{
    match (stage, answer) {
        (WriteStage::ReadingClock { .. }, Answer::Clock { process, nanos }) => {
            assert(dir.join(temp_name_spec(process, nanos)).parts.last() == temp_name_spec(process, nanos));
            assert(is_temp(dir.join(temp_name_spec(process, nanos))));
        },
        _ => {},
    }
}

/// The power going on the way: the file is as it was, or it is replaced.
pub(crate) proof fn lemma_write_interrupted<B>(
    stage: WriteStage<B>,
    dir: Place<B>,
    file: Place<B>,
    text: Seq<char>,
    disk: Disk<B>,
    after: Disk<B>,
)
    requires
        !is_temp(file),
        on_the_way(stage, dir, file, text, disk),
        interrupted(disk, stage.asked(), after),
    ensures
        untouched_but(disk, after, file),
        held(after, file) == held(disk, file) || held(after, file) == Some(text),
{
}

proof fn lemma_write_run<B>(dir: Place<B>, file: Place<B>, text: Seq<char>, disk: Disk<B>, events: Seq<Event<B>>)
    requires
        !is_temp(file),
    ensures
        match write_run(WriteStage::CreatingDir { dir, file, text }, disk, events) {
            Some((WriteStep::Wait(stage), now)) => on_the_way(stage, dir, file, text, now) && untouched(disk, now),
            Some((WriteStep::End(Ok(_)), now)) => held(now, file) == Some(text) && untouched_but(disk, now, file),
            Some((WriteStep::End(Err(_)), now)) => untouched(disk, now),
            None => true,
        },
    decreases events.len(),
{
    if events.len() > 0 {
        let start = WriteStage::CreatingDir { dir, file, text };
        lemma_write_run(dir, file, text, disk, events.drop_last());
        match write_run(start, disk, events.drop_last()) {
            Some((WriteStep::Wait(stage), before)) => {
                let event = events.last();
                if is_answer(stage.asked(), event.answer) && effect(
                    before,
                    stage.asked(),
                    event.answer,
                    event.disk,
                ) {
                    lemma_write_answered(stage, dir, file, text, before, event.answer, event.disk);
                }
            },
            _ => {},
        }
    }
}

/// Replacing a file never leaves half of it behind. Whatever was answered so
/// far, and even if the power goes during the work that is being waited for,
/// the file either is as it was before or holds the whole new text; it holds
/// the new text when the replacement ends well, and is as it was when it ends
/// in failure. No other file changes, but for those named like the ones that
/// texts are written to first. (A file that is named so itself is left out.)
pub proof fn law_atomic_write<B>(
    dir: Place<B>,
    file: Place<B>,
    text: Seq<char>,
    disk: Disk<B>,
    events: Seq<Event<B>>,
    step: WriteStep<B>,
    now: Disk<B>,
)
    requires
        !is_temp(file),
        write_run(WriteStage::CreatingDir { dir, file, text }, disk, events) == Some((step, now)),
    ensures
        untouched_but(disk, now, file),
        match step {
            WriteStep::Wait(stage) => {
                &&& held(now, file) == held(disk, file)
                &&& forall|after: Disk<B>| #[trigger]
                    interrupted(now, stage.asked(), after) ==> {
                        &&& untouched_but(disk, after, file)
                        &&& held(after, file) == held(disk, file) || held(after, file) == Some(text)
                    }
            },
            WriteStep::End(Ok(_)) => held(now, file) == Some(text),
            WriteStep::End(Err(_)) => held(now, file) == held(disk, file),
        },
{
    lemma_write_run(dir, file, text, disk, events);
    if let WriteStep::Wait(stage) = step {
        assert forall|after: Disk<B>| #[trigger] interrupted(now, stage.asked(), after) implies {
            &&& untouched_but(disk, after, file)
            &&& held(after, file) == held(disk, file) || held(after, file) == Some(text)
        } by {
            lemma_write_interrupted(stage, dir, file, text, now, after);
        }
    }
}

/// A name that a text is written to first begins with a dot.
pub(crate) proof fn lemma_temp_name(process: u32, nanos: Option<u128>)
    ensures
        temp_name_spec(process, nanos).len() > 0,
        temp_name_spec(process, nanos)[0] == '.',
{
    reveal_strlit(".tmp_");
    let digits = decimal_spec(process as nat);
    assert((".tmp_"@ + digits)[0] == '.');
    assert((".tmp_"@ + digits + "_"@)[0] == '.');
}

/// A place whose name does not begin with a dot is none that a text is written
/// to first.
pub(crate) proof fn lemma_not_temp<B>(place: Place<B>)
    requires
        place.parts.len() > 0,
        place.parts.last().len() > 0,
        place.parts.last()[0] != '.',
    ensures
        !is_temp(place),
{
    assert forall|process: u32, nanos: Option<u128>|
        place.parts.last() != #[trigger] temp_name_spec(process, nanos) by {
        lemma_temp_name(process, nanos);
    }
}

/// The process and the time that were told during these events.
pub open spec fn clock_told<B>(events: Seq<Event<B>>) -> Option<(u32, Option<u128>)>
    decreases events.len(),
{
    if events.len() == 0 {
        None
    } else {
        match events.last().answer {
            Answer::Clock { process, nanos } => Some((process, nanos)),
            _ => clock_told(events.drop_last()),
        }
    }
}

/// The file that the text is written to first, once the time was told.
pub open spec fn temp_of<B>(dir: Place<B>, events: Seq<Event<B>>) -> Place<B> {
    match clock_told(events) {
        Some((process, nanos)) => dir.join(temp_name_spec(process, nanos)),
        None => dir,
    }
}

proof fn lemma_two_files<B>(dir: Place<B>, file: Place<B>, text: Seq<char>, disk: Disk<B>, events: Seq<Event<B>>)
    requires
        !is_temp(file),
    ensures
        match write_run(WriteStage::CreatingDir { dir, file, text }, disk, events) {
            Some((WriteStep::Wait(stage), now)) => match stage {
                WriteStage::CreatingDir { dir: d, file: f, .. } => d == dir && f == file && now == disk,
                WriteStage::ReadingClock { dir: d, file: f, .. } => d == dir && f == file && now == disk,
                WriteStage::WritingTemp { temp, file: f, .. } => {
                    &&& clock_told(events) is Some
                    &&& temp == temp_of(dir, events)
                    &&& is_temp(temp)
                    &&& f == file
                    &&& now == disk
                },
                WriteStage::Renaming { temp, file: f } => {
                    &&& clock_told(events) is Some
                    &&& temp == temp_of(dir, events)
                    &&& is_temp(temp)
                    &&& f == file
                    &&& same_but(disk, now, temp)
                },
            },
            Some((WriteStep::End(Ok(_)), now)) => {
                &&& clock_told(events) is Some
                &&& held(now, temp_of(dir, events)) is None
                &&& forall|other: Place<B>|
                    other != file && other != temp_of(dir, events) ==> #[trigger] held(now, other) == held(
                        disk,
                        other,
                    )
            },
            Some((WriteStep::End(Err(_)), now)) => {
                ||| now == disk
                ||| clock_told(events) is Some && same_but(disk, now, temp_of(dir, events))
            },
            None => true,
        },
    decreases events.len(),
{
    if events.len() > 0 {
        let start = WriteStage::CreatingDir { dir, file, text };
        let fewer = events.drop_last();
        let event = events.last();
        lemma_two_files(dir, file, text, disk, fewer);
        if let (Some((WriteStep::Wait(stage), before)), Some(_)) = (
            write_run(start, disk, fewer),
            write_run(start, disk, events),
        ) {
            match (stage, event.answer) {
                (WriteStage::ReadingClock { .. }, Answer::Clock { process, nanos }) => {
                    let temp = dir.join(temp_name_spec(process, nanos));
                    assert(temp.parts.last() == temp_name_spec(process, nanos));
                    assert(is_temp(temp));
                },
                (WriteStage::Renaming { temp, .. }, Answer::Done) => {
                    assert(clock_told(events) == clock_told(fewer));
                    assert forall|other: Place<B>| other != file && other != temp implies #[trigger] held(
                        event.disk,
                        other,
                    ) == held(disk, other) by {
                        assert(held(event.disk, other) == held(before, other));
                    }
                },
                _ => {
                    assert(!(event.answer is Clock) ==> clock_told(events) == clock_told(fewer));
                },
            }
        }
    }
}

/// Replacing a file touches no other file than that one and the one that the text
/// is written to first, which tells the process and the time; and when it ends
/// well, that one is gone. (A file that is named like it itself is left out.)
pub proof fn law_replacing_leaves_nothing_behind<B>(
    dir: Place<B>,
    file: Place<B>,
    text: Seq<char>,
    disk: Disk<B>,
    events: Seq<Event<B>>,
    step: WriteStep<B>,
    now: Disk<B>,
)
    requires
        !is_temp(file),
        write_run(WriteStage::CreatingDir { dir, file, text }, disk, events) == Some((step, now)),
    ensures
        clock_told(events) is None ==> now == disk,
        forall|other: Place<B>|
            other != file && other != temp_of(dir, events) ==> #[trigger] held(now, other) == held(disk, other),
        step matches WriteStep::End(Ok(_)) ==> clock_told(events) is Some && held(now, temp_of(dir, events)) is None,
{
    lemma_two_files(dir, file, text, disk, events);
}

} // verus!
