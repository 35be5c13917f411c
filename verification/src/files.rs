//! What is asked of the file system, what it may answer, and how a file is
//! replaced so that a crash never leaves half of it behind.
use vstd::prelude::*;

use crate::geometry::WindowState;
use crate::history::{EntryData, HistoryIndex};
use crate::location::{Location, Place};
use crate::text::{decimal, decimal_spec};

verus! {

/// One piece of work outside this library.
#[derive(Debug)]
pub enum Request<B> {
    /// Create a directory and those above it.
    CreateDirAll { dir: Location<B> },
    /// Read the system clock.
    ReadClock,
    /// Write a text to a file, over what it held.
    WriteText { file: Location<B>, text: String },
    /// Give a file another name, over a file that has this name.
    Rename { from: Location<B>, to: Location<B> },
    /// Read the list of snapshots from its file.
    ReadIndex { file: Location<B> },
    /// Remove a file.
    RemoveFile { file: Location<B> },
    /// Write a list of snapshots out as text.
    EncodeIndex { index: HistoryIndex },
    /// Write what is kept of the window out as text.
    EncodeState { state: WindowState },
}

/// What a `Request` asks.
#[verifier::ext_equal]
pub enum Asked<B> {
    CreateDirAll { dir: Place<B> },
    ReadClock,
    WriteText { file: Place<B>, text: Seq<char> },
    Rename { from: Place<B>, to: Place<B> },
    ReadIndex { file: Place<B> },
    RemoveFile { file: Place<B> },
    EncodeIndex { index: Seq<EntryData> },
    EncodeState { state: WindowState },
}

impl<B> View for Request<B> {
    type V = Asked<B>;

    open spec fn view(&self) -> Asked<B> {
        match self {
            Request::CreateDirAll { dir } => Asked::CreateDirAll { dir: dir@ },
            Request::ReadClock => Asked::ReadClock,
            Request::WriteText { file, text } => Asked::WriteText { file: file@, text: text@ },
            Request::Rename { from, to } => Asked::Rename { from: from@, to: to@ },
            Request::ReadIndex { file } => Asked::ReadIndex { file: file@ },
            Request::RemoveFile { file } => Asked::RemoveFile { file: file@ },
            Request::EncodeIndex { index } => Asked::EncodeIndex { index: index@ },
            Request::EncodeState { state } => Asked::EncodeState { state: *state },
        }
    }
}

/// What came back from a piece of work.
#[derive(Debug)]
pub enum Reply {
    /// It was done.
    Done,
    /// It failed, in these words.
    Failed(String),
    /// The number of this process, and the nanoseconds since 1970 (`None` for a
    /// clock that stands before).
    Clock { process: u32, nanos: Option<u128> },
    /// The list of snapshots, `None` where there was no file or it could not be
    /// understood.
    Index(Option<HistoryIndex>),
    /// What was to be written out, as text.
    Encoded(String),
}

/// What a `Reply` says.
#[verifier::ext_equal]
pub enum Answer {
    Done,
    Failed(Seq<char>),
    Clock { process: u32, nanos: Option<u128> },
    Index(Option<Seq<EntryData>>),
    Encoded(Seq<char>),
}

impl View for Reply {
    type V = Answer;

    open spec fn view(&self) -> Answer {
        match self {
            Reply::Done => Answer::Done,
            Reply::Failed(words) => Answer::Failed(words@),
            Reply::Clock { process, nanos } => Answer::Clock { process: *process, nanos: *nanos },
            Reply::Index(Some(index)) => Answer::Index(Some(index@)),
            Reply::Index(None) => Answer::Index(None),
            Reply::Encoded(text) => Answer::Encoded(text@),
        }
    }
}

/// The answers that a question can have.
pub open spec fn is_answer<B>(asked: Asked<B>, answer: Answer) -> bool {
    match asked {
        Asked::ReadClock => answer is Clock,
        Asked::ReadIndex { .. } => answer is Index,
        Asked::EncodeIndex { .. } => answer is Encoded || answer is Failed,
        Asked::EncodeState { .. } => answer is Encoded || answer is Failed,
        _ => answer is Done || answer is Failed,
    }
}

/// Tells whether `reply` is of a kind that `request` can have.
pub fn fits<B>(request: &Request<B>, reply: &Reply) -> (fit: bool)
    ensures
        fit == is_answer(request@, reply@),
{
    match (request, reply) {
        (Request::ReadClock, Reply::Clock { .. }) => true,
        (Request::ReadClock, _) => false,
        (Request::ReadIndex { .. }, Reply::Index(_)) => true,
        (Request::ReadIndex { .. }, _) => false,
        (Request::EncodeIndex { .. }, Reply::Encoded(_)) => true,
        (Request::EncodeIndex { .. }, Reply::Failed(_)) => true,
        (Request::EncodeIndex { .. }, _) => false,
        (Request::EncodeState { .. }, Reply::Encoded(_)) => true,
        (Request::EncodeState { .. }, Reply::Failed(_)) => true,
        (Request::EncodeState { .. }, _) => false,
        (_, Reply::Done) => true,
        (_, Reply::Failed(_)) => true,
        (_, _) => false,
    }
}

/// Replacing a file: its text goes to a file of another name in `dir`, which
/// then takes the place of `file`. Each variant waits for the answer to one
/// request.
#[derive(Debug)]
pub enum AtomicWrite<B> {
    CreatingDir { dir: Location<B>, file: Location<B>, text: String },
    ReadingClock { dir: Location<B>, file: Location<B>, text: String },
    WritingTemp { temp: Location<B>, file: Location<B>, text: String },
    Renaming { temp: Location<B>, file: Location<B> },
}

/// What an `AtomicWrite` waits for.
#[verifier::ext_equal]
pub enum WriteStage<B> {
    CreatingDir { dir: Place<B>, file: Place<B>, text: Seq<char> },
    ReadingClock { dir: Place<B>, file: Place<B>, text: Seq<char> },
    WritingTemp { temp: Place<B>, file: Place<B>, text: Seq<char> },
    Renaming { temp: Place<B>, file: Place<B> },
}

impl<B> View for AtomicWrite<B> {
    type V = WriteStage<B>;

    open spec fn view(&self) -> WriteStage<B> {
        match self {
            AtomicWrite::CreatingDir { dir, file, text } => WriteStage::CreatingDir {
                dir: dir@,
                file: file@,
                text: text@,
            },
            AtomicWrite::ReadingClock { dir, file, text } => WriteStage::ReadingClock {
                dir: dir@,
                file: file@,
                text: text@,
            },
            AtomicWrite::WritingTemp { temp, file, text } => WriteStage::WritingTemp {
                temp: temp@,
                file: file@,
                text: text@,
            },
            AtomicWrite::Renaming { temp, file } => WriteStage::Renaming { temp: temp@, file: file@ },
        }
    }
}

/// The name of the file that a text is written to first.
pub open spec fn temp_name_spec(process: u32, nanos: Option<u128>) -> Seq<char> {
    ".tmp_"@ + decimal_spec(process as nat) + "_"@ + decimal_spec(nanos.unwrap_or(0) as nat)
}

/// The name of the file that a text is written to first, from the number of the
/// process and the time (0 for a clock that stands before 1970).
pub fn temp_name(process: u32, nanos: Option<u128>) -> (name: String)
    ensures
        name@ == temp_name_spec(process, nanos),
{
    let mut name = ".tmp_".to_owned();
    name.append(decimal(process as u128).as_str());
    name.append("_");
    name.append(decimal(nanos.unwrap_or(0)).as_str());
    name
}

impl<B> WriteStage<B> {
    /// The request whose answer is waited for.
    pub open spec fn asked(self) -> Asked<B> {
        match self {
            WriteStage::CreatingDir { dir, .. } => Asked::CreateDirAll { dir },
            WriteStage::ReadingClock { .. } => Asked::ReadClock,
            WriteStage::WritingTemp { temp, text, .. } => Asked::WriteText { file: temp, text },
            WriteStage::Renaming { temp, file } => Asked::Rename { from: temp, to: file },
        }
    }

    /// What an answer leads to: the next stage, or the end with the outcome of
    /// the whole. The first failure ends it.
    pub open spec fn next(self, answer: Answer) -> WriteStep<B> {
        match (self, answer) {
            (_, Answer::Failed(words)) => WriteStep::End(Err(words)),
            (WriteStage::CreatingDir { dir, file, text }, _) => WriteStep::Wait(
                WriteStage::ReadingClock { dir, file, text },
            ),
            (WriteStage::ReadingClock { dir, file, text }, Answer::Clock { process, nanos }) => WriteStep::Wait(
                WriteStage::WritingTemp { temp: dir.join(temp_name_spec(process, nanos)), file, text },
            ),
            (WriteStage::WritingTemp { temp, file, text }, _) => WriteStep::Wait(
                WriteStage::Renaming { temp, file },
            ),
            _ => WriteStep::End(Ok(())),
        }
    }
}

/// What an answer leads to.
#[derive(Debug)]
pub enum WriteTurn<B> {
    Wait(AtomicWrite<B>),
    End(Result<(), String>),
}

/// What a `WriteTurn` says.
#[verifier::ext_equal]
pub enum WriteStep<B> {
    Wait(WriteStage<B>),
    End(Result<(), Seq<char>>),
}

impl<B> View for WriteTurn<B> {
    type V = WriteStep<B>;

    open spec fn view(&self) -> WriteStep<B> {
        match self {
            WriteTurn::Wait(write) => WriteStep::Wait(write@),
            WriteTurn::End(Ok(_)) => WriteStep::End(Ok(())),
            WriteTurn::End(Err(words)) => WriteStep::End(Err(words@)),
        }
    }
}

/// Starts replacing `file`, which lies in `dir`, by a file with this text.
pub fn atomic_write<B>(dir: Location<B>, file: Location<B>, text: String) -> (write: AtomicWrite<B>)
    ensures
        write@ == (WriteStage::CreatingDir { dir: dir@, file: file@, text: text@ }),
{
    AtomicWrite::CreatingDir { dir, file, text }
}

impl<B: Copy> AtomicWrite<B> {
    /// The request whose answer is waited for.
    pub fn request(&self) -> (request: Request<B>)
        ensures
            request@ == self@.asked(),
    {
        match self {
            AtomicWrite::CreatingDir { dir, .. } => Request::CreateDirAll { dir: dir.duplicate() },
            AtomicWrite::ReadingClock { .. } => Request::ReadClock,
            AtomicWrite::WritingTemp { temp, text, .. } => Request::WriteText {
                file: temp.duplicate(),
                text: text.clone(),
            },
            AtomicWrite::Renaming { temp, file } => Request::Rename {
                from: temp.duplicate(),
                to: file.duplicate(),
            },
        }
    }

    /// Takes the answer to the request.
    pub fn resume(self, reply: Reply) -> (turn: WriteTurn<B>)
        requires
            is_answer(self@.asked(), reply@),
        ensures
            turn@ == self@.next(reply@),
    {
        match (self, reply) {
            (_, Reply::Failed(words)) => WriteTurn::End(Err(words)),
            (AtomicWrite::CreatingDir { dir, file, text }, _) => WriteTurn::Wait(
                AtomicWrite::ReadingClock { dir, file, text },
            ),
            (AtomicWrite::ReadingClock { dir, file, text }, Reply::Clock { process, nanos }) => {
                let name = temp_name(process, nanos);
                WriteTurn::Wait(AtomicWrite::WritingTemp { temp: dir.join(name.as_str()), file, text })
            },
            (AtomicWrite::WritingTemp { temp, file, .. }, _) => WriteTurn::Wait(
                AtomicWrite::Renaming { temp, file },
            ),
            (_, _) => WriteTurn::End(Ok(())),
        }
    }
}

} // verus!
