//! Writing a file that the user chose.
use vstd::prelude::*;

use crate::disk::{effect, held, same_but, Disk};
use crate::files::{is_answer, Answer, Asked, Reply, Request};
use crate::location::{Location, Place};

verus! {

/// Writing a file that the user chose. Each variant waits for the answer to one
/// request.
#[derive(Debug)]
pub enum ExternalWrite<B> {
    CreatingParent { parent: Location<B>, file: Location<B>, contents: String },
    Writing { file: Location<B>, contents: String },
}

/// What an `ExternalWrite` waits for.
#[verifier::ext_equal]
pub enum ExternalStage<B> {
    CreatingParent { parent: Place<B>, file: Place<B>, contents: Seq<char> },
    Writing { file: Place<B>, contents: Seq<char> },
}

impl<B> View for ExternalWrite<B> {
    type V = ExternalStage<B>;

    open spec fn view(&self) -> ExternalStage<B> {
        match self {
            ExternalWrite::CreatingParent { parent, file, contents } => ExternalStage::CreatingParent {
                parent: parent@,
                file: file@,
                contents: contents@,
            },
            ExternalWrite::Writing { file, contents } => ExternalStage::Writing {
                file: file@,
                contents: contents@,
            },
        }
    }
}

/// What an answer leads to.
#[derive(Debug)]
pub enum ExternalTurn<B> {
    Wait(ExternalWrite<B>),
    End(Result<(), String>),
}

/// What an `ExternalTurn` says.
#[verifier::ext_equal]
pub enum ExternalStep<B> {
    Wait(ExternalStage<B>),
    End(Result<(), Seq<char>>),
}

impl<B> View for ExternalTurn<B> {
    type V = ExternalStep<B>;

    open spec fn view(&self) -> ExternalStep<B> {
        match self {
            ExternalTurn::Wait(write) => ExternalStep::Wait(write@),
            ExternalTurn::End(Ok(_)) => ExternalStep::End(Ok(())),
            ExternalTurn::End(Err(words)) => ExternalStep::End(Err(words@)),
        }
    }
}

/// The directory or file `base` itself.
pub open spec fn itself<B>(base: B) -> Place<B> {
    Place { base, parts: Seq::empty() }
}

impl<B> ExternalStage<B> {
    /// Writing begins with the directory that the file lies in, if its path
    /// has one.
    pub open spec fn begin(path: B, parent: Option<B>, contents: Seq<char>) -> ExternalStage<B> {
        match parent {
            Some(parent) => ExternalStage::CreatingParent {
                parent: itself(parent),
                file: itself(path),
                contents,
            },
            None => ExternalStage::Writing { file: itself(path), contents },
        }
    }

    /// The request whose answer is waited for.
    pub open spec fn asked(self) -> Asked<B> {
        match self {
            ExternalStage::CreatingParent { parent, .. } => Asked::CreateDirAll { dir: parent },
            ExternalStage::Writing { file, contents } => Asked::WriteText { file, text: contents },
        }
    }

    /// What an answer leads to. The first failure ends it.
    pub open spec fn next(self, answer: Answer) -> ExternalStep<B> {
        match (self, answer) {
            (_, Answer::Failed(words)) => ExternalStep::End(Err(words)),
            (ExternalStage::CreatingParent { file, contents, .. }, _) => ExternalStep::Wait(
                ExternalStage::Writing { file, contents },
            ),
            _ => ExternalStep::End(Ok(())),
        }
    }
}

/// Starts writing the file at `path`, whose directory is `parent` (`None` for a
/// path without one).
pub fn write_external_file<B: Copy>(path: B, parent: Option<B>, contents: String) -> (write: ExternalWrite<B>)
    ensures
        write@ == ExternalStage::begin(path, parent, contents@),
{
    match parent {
        Some(parent) => ExternalWrite::CreatingParent {
            parent: Location::at(parent),
            file: Location::at(path),
            contents,
        },
        None => ExternalWrite::Writing { file: Location::at(path), contents },
    }
}

impl<B: Copy> ExternalWrite<B> {
    /// The request whose answer is waited for.
    pub fn request(&self) -> (request: Request<B>)
        ensures
            request@ == self@.asked(),
    {
        match self {
            ExternalWrite::CreatingParent { parent, .. } => Request::CreateDirAll { dir: parent.duplicate() },
            ExternalWrite::Writing { file, contents } => Request::WriteText {
                file: file.duplicate(),
                text: contents.clone(),
            },
        }
    }

    /// Takes the answer to the request.
    pub fn resume(self, reply: Reply) -> (turn: ExternalTurn<B>)
        requires
            is_answer(self@.asked(), reply@),
        ensures
            turn@ == self@.next(reply@),
    {
        match (self, reply) {
            (_, Reply::Failed(words)) => ExternalTurn::End(Err(words)),
            (ExternalWrite::CreatingParent { file, contents, .. }, _) => ExternalTurn::Wait(
                ExternalWrite::Writing { file, contents },
            ),
            (_, _) => ExternalTurn::End(Ok(())),
        }
    }
}

/// A stage of writing `contents` to the file at `path`.
pub open spec fn is_stage_of<B>(stage: ExternalStage<B>, path: B, contents: Seq<char>) -> bool {
    match stage {
        ExternalStage::CreatingParent { file, contents: c, .. } => file == itself(path) && c == contents,
        ExternalStage::Writing { file, contents: c } => file == itself(path) && c == contents,
    }
}

/// Writing a file that the user chose changes that file alone, and when it ends
/// well the file holds the contents.
pub proof fn law_external_file_is_written<B>(
    path: B,
    parent: Option<B>,
    contents: Seq<char>,
    stage: ExternalStage<B>,
    before: Disk<B>,
    answer: Answer,
    after: Disk<B>,
)
    requires
        is_stage_of(stage, path, contents),
        is_answer(stage.asked(), answer),
        effect(before, stage.asked(), answer, after),
    ensures
        is_stage_of(ExternalStage::begin(path, parent, contents), path, contents),
        same_but(before, after, itself(path)),
        match stage.next(answer) {
            ExternalStep::Wait(next) => is_stage_of(next, path, contents),
            ExternalStep::End(Ok(_)) => held(after, itself(path)) == Some(contents),
            ExternalStep::End(Err(words)) => answer == Answer::Failed(words),
        },
{
}

} // verus!
