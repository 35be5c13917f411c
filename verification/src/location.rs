//! Where the files live.
//!
//! ```text
//! <executable's directory>/kanban-data/
//!   latest.json           the board as it was saved last
//!   window-state.json     the window's place on screen
//!   history/
//!     index.json          the snapshots, oldest first
//!     state_<stamp>.json  one snapshot
//! ```
use vstd::prelude::*;

verus! {

/// The directory of the application's files, beside the executable.
pub const APP_SUBDIR: &'static str = "kanban-data";

/// The directory of the snapshots, below the application's.
pub const HIST_SUBDIR: &'static str = "history";

/// A path: a directory known to the caller, and the names to join to it, one
/// after the other.
#[derive(Debug)]
pub struct Location<B> {
    pub base: B,
    pub parts: Vec<String>,
}

/// What a `Location` stands for.
#[verifier::ext_equal]
pub struct Place<B> {
    pub base: B,
    pub parts: Seq<Seq<char>>,
}

impl<B> Place<B> {
    /// The place `name` below this one.
    pub open spec fn join(self, name: Seq<char>) -> Place<B> {
        Place { base: self.base, parts: self.parts.push(name) }
    }
}

impl<B> View for Location<B> {
    type V = Place<B>;

    open spec fn view(&self) -> Place<B> {
        Place { base: self.base, parts: self.parts.deep_view() }
    }
}

impl<B: Copy> Location<B> {
    /// The directory `base` itself.
    pub fn at(base: B) -> (here: Location<B>)
        ensures
            here@ == (Place { base, parts: Seq::<Seq<char>>::empty() }),
    {
        let here = Location { base, parts: Vec::new() };
        assert(here.parts.deep_view() =~= Seq::<Seq<char>>::empty());
        here
    }

    /// The same path again.
    pub fn duplicate(&self) -> (same: Location<B>)
        ensures
            same@ == self@,
    {
        let same = Location { base: self.base, parts: self.parts.clone() };
        assert(same.parts.deep_view() =~= self.parts.deep_view());
        same
    }

    /// The path `name` below this one.
    pub fn join(&self, name: &str) -> (below: Location<B>)
        ensures
            below@ == self@.join(name@),
    {
        let mut parts = self.parts.clone();
        parts.push(name.to_owned());
        let below = Location { base: self.base, parts };
        assert(below.parts.deep_view() =~= self.parts.deep_view().push(name@));
        below
    }
}

/// The application's directory, for an executable in `exe_dir`.
pub open spec fn data_place<B>(exe_dir: B) -> Place<B> {
    Place { base: exe_dir, parts: seq![APP_SUBDIR@] }
}

/// The directory of the snapshots, for an executable in `exe_dir`.
pub open spec fn history_place<B>(exe_dir: B) -> Place<B> {
    data_place(exe_dir).join(HIST_SUBDIR@)
}

/// The file of the window's place on screen.
pub open spec fn window_state_place<B>(exe_dir: B) -> Place<B> {
    data_place(exe_dir).join("window-state.json"@)
}

/// The file of the board that was saved last.
pub open spec fn latest_place<B>(exe_dir: B) -> Place<B> {
    data_place(exe_dir).join("latest.json"@)
}

/// The file of the list of snapshots.
pub open spec fn index_place<B>(exe_dir: B) -> Place<B> {
    history_place(exe_dir).join("index.json"@)
}

/// The file `name` among the snapshots.
pub open spec fn snapshot_place<B>(exe_dir: B, name: Seq<char>) -> Place<B> {
    history_place(exe_dir).join(name)
}

/// How a search for the executable's directory turns into a path: `place` of
/// the directory where there is one, and otherwise the words of the failure.
pub open spec fn located<B>(
    exe_dir: Result<Option<B>, String>,
    place: spec_fn(B) -> Place<B>,
    found: Result<Location<B>, String>,
) -> bool {
    match exe_dir {
        Ok(Some(dir)) => found is Ok && found->Ok_0@ == place(dir),
        Ok(None) => found is Err && found->Err_0@ == "could not resolve executable directory"@,
        Err(words) => found is Err && found->Err_0@ == words@,
    }
}

/// The application's directory, for an executable in `exe_dir`.
pub fn data_location<B: Copy>(exe_dir: B) -> (dir: Location<B>)
    ensures
        dir@ == data_place(exe_dir),
{
    let dir = Location::at(exe_dir).join(APP_SUBDIR);
    assert(dir@.parts =~= seq![APP_SUBDIR@]);
    dir
}

/// The directory of the snapshots, for an executable in `exe_dir`.
pub fn history_location<B: Copy>(exe_dir: B) -> (dir: Location<B>)
    ensures
        dir@ == history_place(exe_dir),
{
    data_location(exe_dir).join(HIST_SUBDIR)
}

/// The application's directory. `exe_dir` is what the search for the
/// executable gave: the directory it lies in, `None` where its path has no
/// parent, or the words of the failure.
pub fn data_dir<B: Copy>(exe_dir: Result<Option<B>, String>) -> (dir: Result<Location<B>, String>)
    ensures
        located(exe_dir, |b: B| data_place(b), dir),
{
    match exe_dir {
        Ok(Some(base)) => Ok(data_location(base)),
        Ok(None) => Err("could not resolve executable directory".to_owned()),
        Err(words) => Err(words),
    }
}

/// The directory of the snapshots.
pub fn history_dir<B: Copy>(exe_dir: Result<Option<B>, String>) -> (dir: Result<Location<B>, String>)
    ensures
        located(exe_dir, |b: B| history_place(b), dir),
{
    match data_dir(exe_dir) {
        Ok(dir) => Ok(dir.join(HIST_SUBDIR)),
        Err(words) => Err(words),
    }
}

/// The file of the window's place on screen.
pub fn window_state_path<B: Copy>(exe_dir: Result<Option<B>, String>) -> (file: Result<Location<B>, String>)
    ensures
        located(exe_dir, |b: B| window_state_place(b), file),
{
    match data_dir(exe_dir) {
        Ok(dir) => Ok(dir.join("window-state.json")),
        Err(words) => Err(words),
    }
}

/// The file of the board that was saved last.
pub fn latest_path<B: Copy>(exe_dir: Result<Option<B>, String>) -> (file: Result<Location<B>, String>)
    ensures
        located(exe_dir, |b: B| latest_place(b), file),
{
    match data_dir(exe_dir) {
        Ok(dir) => Ok(dir.join("latest.json")),
        Err(words) => Err(words),
    }
}

/// The file of the list of snapshots.
pub fn index_path<B: Copy>(exe_dir: Result<Option<B>, String>) -> (file: Result<Location<B>, String>)
    ensures
        located(exe_dir, |b: B| index_place(b), file),
{
    match history_dir(exe_dir) {
        Ok(dir) => Ok(dir.join("index.json")),
        Err(words) => Err(words),
    }
}

} // verus!
