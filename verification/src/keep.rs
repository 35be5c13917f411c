//! Keeping the window's place on disk, as far as that succeeds.
use vstd::prelude::*;

use crate::disk::{effect, held, same_but, Disk};
use crate::files::{is_answer, Answer, Asked, Reply, Request};
use crate::geometry::WindowState;
use crate::location::{data_location, data_place, window_state_place};

verus! {

/// Keeping the window's place on disk. Each variant waits for the answer to one
/// request.
#[derive(Debug)]
pub enum KeepStage {
    CreatingDir { state: WindowState },
    Encoding { state: WindowState },
    Writing { text: String },
}

/// Keeping the window's place on disk, for an executable in `exe_dir`.
#[derive(Debug)]
pub struct KeepState<B> {
    pub exe_dir: B,
    pub stage: KeepStage,
}

/// What a `KeepStage` says.
#[verifier::ext_equal]
pub enum KeepingStage {
    CreatingDir { state: WindowState },
    Encoding { state: WindowState },
    Writing { text: Seq<char> },
}

/// What a `KeepState` says.
#[verifier::ext_equal]
pub struct Keeping<B> {
    pub exe_dir: B,
    pub stage: KeepingStage,
}

impl<B> View for KeepState<B> {
    type V = Keeping<B>;

    open spec fn view(&self) -> Keeping<B> {
        Keeping {
            exe_dir: self.exe_dir,
            stage: match self.stage {
                KeepStage::CreatingDir { state } => KeepingStage::CreatingDir { state },
                KeepStage::Encoding { state } => KeepingStage::Encoding { state },
                KeepStage::Writing { text } => KeepingStage::Writing { text: text@ },
            },
        }
    }
}

impl<B> Keeping<B> {
    /// The request whose answer is waited for.
    pub open spec fn asked(self) -> Asked<B> {
        match self.stage {
            KeepingStage::CreatingDir { .. } => Asked::CreateDirAll { dir: data_place(self.exe_dir) },
            KeepingStage::Encoding { state } => Asked::EncodeState { state },
            KeepingStage::Writing { text } => Asked::WriteText {
                file: window_state_place(self.exe_dir),
                text,
            },
        }
    }

    /// What an answer leads to, `None` at the end. A directory that could not be
    /// created does not count; a state that has no text ends it.
    pub open spec fn next(self, answer: Answer) -> Option<Keeping<B>> {
        match (self.stage, answer) {
            (KeepingStage::CreatingDir { state }, _) => Some(
                Keeping { exe_dir: self.exe_dir, stage: KeepingStage::Encoding { state } },
            ),
            (KeepingStage::Encoding { .. }, Answer::Encoded(text)) => Some(
                Keeping { exe_dir: self.exe_dir, stage: KeepingStage::Writing { text } },
            ),
            _ => None,
        }
    }
}

/// Starts keeping `state` on disk; `None` if the executable cannot be found.
pub fn write_window_state<B: Copy>(state: WindowState, exe_dir: Result<Option<B>, String>) -> (keep: Option<
    KeepState<B>,
>)
    ensures
        match exe_dir {
            Ok(Some(dir)) => keep is Some && keep->0@ == (Keeping {
                exe_dir: dir,
                stage: KeepingStage::CreatingDir { state },
            }),
            _ => keep is None,
        },
{
    match exe_dir {
        Ok(Some(exe_dir)) => Some(KeepState { exe_dir, stage: KeepStage::CreatingDir { state } }),
        _ => None,
    }
}

/// What there is left to do, `None` at the end.
pub open spec fn left_of<B>(keep: Option<KeepState<B>>) -> Option<Keeping<B>> {
    match keep {
        Some(keep) => Some(keep@),
        None => None,
    }
}

impl<B: Copy> KeepState<B> {
    /// The request whose answer is waited for.
    pub fn request(&self) -> (request: Request<B>)
        ensures
            request@ == self@.asked(),
    {
        match &self.stage {
            KeepStage::CreatingDir { .. } => Request::CreateDirAll { dir: data_location(self.exe_dir) },
            KeepStage::Encoding { state } => Request::EncodeState { state: *state },
            KeepStage::Writing { text } => Request::WriteText {
                file: data_location(self.exe_dir).join("window-state.json"),
                text: text.clone(),
            },
        }
    }

    /// Takes the answer to the request; `None` at the end.
    pub fn resume(self, reply: Reply) -> (next: Option<KeepState<B>>)
        requires
            is_answer(self@.asked(), reply@),
        ensures
            left_of(next) == self@.next(reply@),
    {
        match (self.stage, reply) {
            (KeepStage::CreatingDir { state }, _) => Some(
                KeepState { exe_dir: self.exe_dir, stage: KeepStage::Encoding { state } },
            ),
            (KeepStage::Encoding { .. }, Reply::Encoded(text)) => Some(
                KeepState { exe_dir: self.exe_dir, stage: KeepStage::Writing { text } },
            ),
            (_, _) => None,
        }
    }
}

/// What the window's place is turned into is what its file holds, if it can be
/// written, whether or not its directory had to be created; and no other file
/// changes.
pub proof fn law_window_state_is_kept<B>(
    exe_dir: B,
    state: WindowState,
    created: Answer,
    text: Seq<char>,
    before: Disk<B>,
    written: Answer,
    after: Disk<B>,
)
    requires
        ({
            let start = Keeping { exe_dir, stage: KeepingStage::CreatingDir { state } };
            let encoding = start.next(created)->0;
            let writing = encoding.next(Answer::Encoded(text))->0;
            &&& is_answer(start.asked(), created)
            &&& is_answer(writing.asked(), written)
            &&& effect(before, writing.asked(), written, after)
        }),
    ensures
        ({
            let start = Keeping { exe_dir, stage: KeepingStage::CreatingDir { state } };
            let encoding = start.next(created)->0;
            let writing = encoding.next(Answer::Encoded(text))->0;
            &&& start.next(created) is Some
            &&& encoding.asked() == Asked::<B>::EncodeState { state }
            &&& encoding.next(Answer::Encoded(text)) is Some
            &&& writing.next(written) is None
            &&& same_but(before, after, window_state_place(exe_dir))
            &&& written is Done ==> held(after, window_state_place(exe_dir)) == Some(text)
        }),
{
}

} // verus!
