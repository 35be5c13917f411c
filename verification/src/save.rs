//! Saving a snapshot of the board.
use vstd::prelude::*;

use crate::board::{count_board, counted, counts_in, json_reading, BoardCounts, Counted};
use crate::files::{
    atomic_write, is_answer, Answer, Asked, AtomicWrite, Reply, Request, WriteStage, WriteStep, WriteTurn,
};
use crate::history::{
    kept, or_empty, outlived, read_index, snapshot_name, snapshot_name_spec, EntryData, HistoryEntry,
    HistoryIndex,
};
use crate::location::{
    data_dir, data_location, data_place, history_location, history_place, index_place, latest_place,
    snapshot_place, Place,
};
use crate::text::{is_plain_name, is_plain_name_spec};

verus! {

/// A snapshot on its way to disk: first its own file, then the file of the
/// board saved last, then the list of snapshots, from which the oldest go once
/// there are too many, with their files unless a snapshot that stays has the
/// same.
#[derive(Debug)]
pub struct SaveSnapshot<B> {
    pub exe_dir: B,
    pub entry: HistoryEntry,
    pub board: String,
    pub stage: SaveStage<B>,
}

/// What a `SaveSnapshot` waits for.
#[derive(Debug)]
pub enum SaveStage<B> {
    CreatingHistory,
    WritingSnapshot(AtomicWrite<B>),
    WritingLatest(AtomicWrite<B>),
    ReadingIndex,
    /// The file of `oldest` is being removed; those of `rest` come after.
    Removing { index: HistoryIndex, oldest: HistoryEntry, rest: Vec<HistoryEntry> },
    Encoding { index: HistoryIndex },
    WritingIndex { index: HistoryIndex, write: AtomicWrite<B> },
}

/// What a `SaveSnapshot` says.
#[verifier::ext_equal]
pub struct Saving<B> {
    pub exe_dir: B,
    pub entry: EntryData,
    pub board: Seq<char>,
    pub stage: SavingStage<B>,
}

/// What a `SaveStage` says.
#[verifier::ext_equal]
pub enum SavingStage<B> {
    CreatingHistory,
    WritingSnapshot(WriteStage<B>),
    WritingLatest(WriteStage<B>),
    ReadingIndex,
    Removing { index: Seq<EntryData>, oldest: EntryData, rest: Seq<EntryData> },
    Encoding { index: Seq<EntryData> },
    WritingIndex { index: Seq<EntryData>, write: WriteStage<B> },
}

impl<B> View for SaveStage<B> {
    type V = SavingStage<B>;

    open spec fn view(&self) -> SavingStage<B> {
        match self {
            SaveStage::CreatingHistory => SavingStage::CreatingHistory,
            SaveStage::WritingSnapshot(write) => SavingStage::WritingSnapshot(write@),
            SaveStage::WritingLatest(write) => SavingStage::WritingLatest(write@),
            SaveStage::ReadingIndex => SavingStage::ReadingIndex,
            SaveStage::Removing { index, oldest, rest } => SavingStage::Removing {
                index: index@,
                oldest: oldest.deep_view(),
                rest: rest.deep_view(),
            },
            SaveStage::Encoding { index } => SavingStage::Encoding { index: index@ },
            SaveStage::WritingIndex { index, write } => SavingStage::WritingIndex {
                index: index@,
                write: write@,
            },
        }
    }
}

impl<B> View for SaveSnapshot<B> {
    type V = Saving<B>;

    open spec fn view(&self) -> Saving<B> {
        Saving {
            exe_dir: self.exe_dir,
            entry: self.entry.deep_view(),
            board: self.board@,
            stage: self.stage@,
        }
    }
}

/// What an answer leads to: more work, or the end, with the snapshots that
/// there are now or the words of the failure.
#[derive(Debug)]
pub enum SaveTurn<B> {
    Wait(SaveSnapshot<B>),
    End(Result<Vec<HistoryEntry>, String>),
}

/// What a `SaveTurn` says.
#[verifier::ext_equal]
pub enum SaveStep<B> {
    Wait(Saving<B>),
    End(Result<Seq<EntryData>, Seq<char>>),
}

impl<B> View for SaveTurn<B> {
    type V = SaveStep<B>;

    open spec fn view(&self) -> SaveStep<B> {
        match self {
            SaveTurn::Wait(save) => SaveStep::Wait(save@),
            SaveTurn::End(Ok(entries)) => SaveStep::End(Ok(entries.deep_view())),
            SaveTurn::End(Err(words)) => SaveStep::End(Err(words@)),
        }
    }
}

impl<B> Saving<B> {
    /// The work before its first request is answered, for the stamp `stamp`.
    pub open spec fn begin(
        exe_dir: B,
        board: Seq<char>,
        stamp: Seq<char>,
        iso: Seq<char>,
        counts: (nat, nat),
    ) -> Saving<B> {
        Saving {
            exe_dir,
            entry: EntryData {
                filename: snapshot_name_spec(stamp),
                timestamp: iso,
                columns: counts.0,
                cards: counts.1,
            },
            board,
            stage: SavingStage::CreatingHistory,
        }
    }

    /// The same snapshot at another stage.
    pub open spec fn at(self, stage: SavingStage<B>) -> Saving<B> {
        Saving { stage, ..self }
    }

    /// The file of the snapshot.
    pub open spec fn snapshot_file(self) -> Place<B> {
        snapshot_place(self.exe_dir, self.entry.filename)
    }

    /// The request whose answer is waited for.
    pub open spec fn asked(self) -> Asked<B> {
        match self.stage {
            SavingStage::CreatingHistory => Asked::CreateDirAll { dir: history_place(self.exe_dir) },
            SavingStage::WritingSnapshot(write) => write.asked(),
            SavingStage::WritingLatest(write) => write.asked(),
            SavingStage::ReadingIndex => Asked::ReadIndex { file: index_place(self.exe_dir) },
            SavingStage::Removing { oldest, .. } => Asked::RemoveFile {
                file: snapshot_place(self.exe_dir, oldest.filename),
            },
            SavingStage::Encoding { index } => Asked::EncodeIndex { index },
            SavingStage::WritingIndex { write, .. } => write.asked(),
        }
    }

    /// Writing the snapshot's own file.
    pub open spec fn write_snapshot(self) -> Saving<B> {
        self.at(
            SavingStage::WritingSnapshot(
                WriteStage::CreatingDir {
                    dir: history_place(self.exe_dir),
                    file: self.snapshot_file(),
                    text: self.board,
                },
            ),
        )
    }

    /// Writing the file of the board saved last.
    pub open spec fn write_latest(self) -> Saving<B> {
        self.at(
            SavingStage::WritingLatest(
                WriteStage::CreatingDir {
                    dir: data_place(self.exe_dir),
                    file: latest_place(self.exe_dir),
                    text: self.board,
                },
            ),
        )
    }

    /// Writing the list of snapshots, whose text is `text`.
    pub open spec fn write_index(self, index: Seq<EntryData>, text: Seq<char>) -> Saving<B> {
        self.at(
            SavingStage::WritingIndex {
                index,
                write: WriteStage::CreatingDir {
                    dir: history_place(self.exe_dir),
                    file: index_place(self.exe_dir),
                    text,
                },
            },
        )
    }

    /// Removing the files of `gone`, one after the other, and then writing the
    /// list of snapshots.
    pub open spec fn remove(self, index: Seq<EntryData>, gone: Seq<EntryData>) -> Saving<B> {
        if gone.len() > 0 {
            self.at(SavingStage::Removing { index, oldest: gone[0], rest: gone.skip(1) })
        } else {
            self.at(SavingStage::Encoding { index })
        }
    }

    /// The list with this snapshot in it, from the list that was on disk.
    pub open spec fn listed(self, loaded: Option<Seq<EntryData>>) -> Seq<EntryData> {
        or_empty(loaded).push(self.entry)
    }

    /// What an answer leads to. A failure ends it, unless it is the failure to
    /// remove a file. Of the snapshots that go, only those lose their files whose
    /// files are needed no more.
    pub open spec fn next(self, answer: Answer) -> SaveStep<B> {
        match self.stage {
            SavingStage::CreatingHistory => match answer {
                Answer::Failed(words) => SaveStep::End(Err(words)),
                _ => SaveStep::Wait(self.write_snapshot()),
            },
            SavingStage::WritingSnapshot(write) => match write.next(answer) {
                WriteStep::Wait(write) => SaveStep::Wait(self.at(SavingStage::WritingSnapshot(write))),
                WriteStep::End(Ok(_)) => SaveStep::Wait(self.write_latest()),
                WriteStep::End(Err(words)) => SaveStep::End(Err(words)),
            },
            SavingStage::WritingLatest(write) => match write.next(answer) {
                WriteStep::Wait(write) => SaveStep::Wait(self.at(SavingStage::WritingLatest(write))),
                WriteStep::End(Ok(_)) => SaveStep::Wait(self.at(SavingStage::ReadingIndex)),
                WriteStep::End(Err(words)) => SaveStep::End(Err(words)),
            },
            SavingStage::ReadingIndex => {
                let listed = self.listed(answer->Index_0);
                SaveStep::Wait(self.remove(kept(listed), outlived(listed)))
            },
            SavingStage::Removing { index, rest, .. } => SaveStep::Wait(self.remove(index, rest)),
            SavingStage::Encoding { index } => match answer {
                Answer::Failed(words) => SaveStep::End(Err(words)),
                _ => SaveStep::Wait(self.write_index(index, answer->Encoded_0)),
            },
            SavingStage::WritingIndex { index, write } => match write.next(answer) {
                WriteStep::Wait(write) => SaveStep::Wait(self.at(SavingStage::WritingIndex { index, write })),
                WriteStep::End(Ok(_)) => SaveStep::End(Ok(index)),
                WriteStep::End(Err(words)) => SaveStep::End(Err(words)),
            },
        }
    }
}

/// How saving a snapshot begins. A stamp that is not a plain name is refused,
/// then a board that is not JSON, then a lost executable; otherwise the work
/// begins with the directory of the snapshots.
pub open spec fn begun<B>(
    board: Seq<char>,
    stamp: Seq<char>,
    iso: Seq<char>,
    counts: Counted,
    exe_dir: Result<Option<B>, String>,
    save: Result<SaveSnapshot<B>, String>,
) -> bool {
    if !is_plain_name_spec(stamp) {
        save is Err && save->Err_0@ == "invalid timestamp"@
    } else if counts is Err {
        save is Err && save->Err_0@ == counts->Err_0
    } else {
        match exe_dir {
            Ok(Some(dir)) => save is Ok && save->Ok_0@ == Saving::begin(dir, board, stamp, iso, counts->Ok_0),
            Ok(None) => save is Err && save->Err_0@ == "could not resolve executable directory"@,
            Err(words) => save is Err && save->Err_0@ == words@,
        }
    }
}

/// Begins saving a snapshot whose board was counted before.
pub fn save_counted_snapshot<B: Copy>(
    board_json: String,
    timestamp: String,
    iso: String,
    counts: Result<BoardCounts, String>,
    exe_dir: Result<Option<B>, String>,
) -> (save: Result<SaveSnapshot<B>, String>)
    ensures
        begun(board_json@, timestamp@, iso@, counted(counts), exe_dir, save),
{
    if !is_plain_name(timestamp.as_str()) {
        return Err("invalid timestamp".to_owned());
    }
    let counts = match counts {
        Ok(counts) => counts,
        Err(words) => return Err(words),
    };
    match data_dir(exe_dir) {
        Ok(dir) => Ok(
            SaveSnapshot {
                exe_dir: dir.base,
                entry: HistoryEntry {
                    filename: snapshot_name(timestamp.as_str()),
                    timestamp: iso,
                    columns: counts.columns,
                    cards: counts.cards,
                },
                board: board_json,
                stage: SaveStage::CreatingHistory,
            },
        ),
        Err(words) => Err(words),
    }
}

/// Begins saving a snapshot of the board `board_json`, under the stamp
/// `timestamp` and taken at `iso`.
pub fn save_snapshot<B: Copy>(
    board_json: String,
    timestamp: String,
    iso: String,
    exe_dir: Result<Option<B>, String>,
) -> (save: Result<SaveSnapshot<B>, String>)
    ensures
        begun(board_json@, timestamp@, iso@, counts_in(json_reading(board_json@)), exe_dir, save),
{
    let counts = count_board(board_json.as_str());
    save_counted_snapshot(board_json, timestamp, iso, counts, exe_dir)
}

impl<B: Copy> SaveSnapshot<B> {
    fn at(self, stage: SaveStage<B>) -> (save: SaveSnapshot<B>)
        ensures
            save@ == self@.at(stage@),
    {
        SaveSnapshot { exe_dir: self.exe_dir, entry: self.entry, board: self.board, stage }
    }

    fn write_snapshot(self) -> (save: SaveSnapshot<B>)
        ensures
            save@ == self@.write_snapshot(),
    {
        let dir = history_location(self.exe_dir);
        let file = dir.join(self.entry.filename.as_str());
        let write = atomic_write(dir, file, self.board.clone());
        self.at(SaveStage::WritingSnapshot(write))
    }

    fn write_latest(self) -> (save: SaveSnapshot<B>)
        ensures
            save@ == self@.write_latest(),
    {
        let dir = data_location(self.exe_dir);
        let file = dir.join("latest.json");
        let write = atomic_write(dir, file, self.board.clone());
        self.at(SaveStage::WritingLatest(write))
    }

    fn write_index(self, index: HistoryIndex, text: String) -> (save: SaveSnapshot<B>)
        ensures
            save@ == self@.write_index(index@, text@),
    {
        let dir = history_location(self.exe_dir);
        let file = dir.join("index.json");
        let write = atomic_write(dir, file, text);
        self.at(SaveStage::WritingIndex { index, write })
    }

    fn remove(self, index: HistoryIndex, gone: Vec<HistoryEntry>) -> (save: SaveSnapshot<B>)
        ensures
            save@ == self@.remove(index@, gone.deep_view()),
    {
        let mut rest = gone;
        if rest.len() > 0 {
            let oldest = rest.remove(0);
            assert(rest.deep_view() =~= gone.deep_view().skip(1));
            self.at(SaveStage::Removing { index, oldest, rest })
        } else {
            self.at(SaveStage::Encoding { index })
        }
    }

    /// The request whose answer is waited for.
    pub fn request(&self) -> (request: Request<B>)
        ensures
            request@ == self@.asked(),
    {
        match &self.stage {
            SaveStage::CreatingHistory => Request::CreateDirAll { dir: history_location(self.exe_dir) },
            SaveStage::WritingSnapshot(write) => write.request(),
            SaveStage::WritingLatest(write) => write.request(),
            SaveStage::ReadingIndex => Request::ReadIndex {
                file: history_location(self.exe_dir).join("index.json"),
            },
            SaveStage::Removing { oldest, .. } => Request::RemoveFile {
                file: history_location(self.exe_dir).join(oldest.filename.as_str()),
            },
            SaveStage::Encoding { index } => Request::EncodeIndex { index: index.duplicate() },
            SaveStage::WritingIndex { write, .. } => write.request(),
        }
    }

    /// Takes the answer to the request.
    pub fn resume(self, reply: Reply) -> (turn: SaveTurn<B>)
        requires
            is_answer(self@.asked(), reply@),
        ensures
            turn@ == self@.next(reply@),
    {
        let SaveSnapshot { exe_dir, entry, board, stage } = self;
        let save = SaveSnapshot { exe_dir, entry, board, stage: SaveStage::CreatingHistory };
        match stage {
            SaveStage::CreatingHistory => match reply {
                Reply::Failed(words) => SaveTurn::End(Err(words)),
                _ => SaveTurn::Wait(save.write_snapshot()),
            },
            SaveStage::WritingSnapshot(write) => match write.resume(reply) {
                WriteTurn::Wait(write) => SaveTurn::Wait(save.at(SaveStage::WritingSnapshot(write))),
                WriteTurn::End(Ok(_)) => SaveTurn::Wait(save.write_latest()),
                WriteTurn::End(Err(words)) => SaveTurn::End(Err(words)),
            },
            SaveStage::WritingLatest(write) => match write.resume(reply) {
                WriteTurn::Wait(write) => SaveTurn::Wait(save.at(SaveStage::WritingLatest(write))),
                WriteTurn::End(Ok(_)) => SaveTurn::Wait(save.at(SaveStage::ReadingIndex)),
                WriteTurn::End(Err(words)) => SaveTurn::End(Err(words)),
            },
            SaveStage::ReadingIndex => {
                let loaded = match reply {
                    Reply::Index(loaded) => loaded,
                    _ => None,
                };
                let mut index = read_index(loaded);
                let gone = index.record(save.entry.clone());
                SaveTurn::Wait(save.remove(index, gone))
            },
            SaveStage::Removing { index, rest, .. } => SaveTurn::Wait(save.remove(index, rest)),
            SaveStage::Encoding { index } => {
                let text = match reply {
                    Reply::Failed(words) => return SaveTurn::End(Err(words)),
                    Reply::Encoded(text) => text,
                    _ => String::new(),
                };
                SaveTurn::Wait(save.write_index(index, text))
            },
            SaveStage::WritingIndex { index, write } => match write.resume(reply) {
                WriteTurn::Wait(write) => SaveTurn::Wait(save.at(SaveStage::WritingIndex { index, write })),
                WriteTurn::End(Ok(_)) => SaveTurn::End(Ok(index.snapshots)),
                WriteTurn::End(Err(words)) => SaveTurn::End(Err(words)),
            },
        }
    }
}

} // verus!
