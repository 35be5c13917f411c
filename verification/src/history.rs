//! The list of snapshots.
use vstd::prelude::*;

verus! {

/// How many snapshots are kept.
pub const MAX_HISTORY: usize = 50;

/// One snapshot: its file, when it was taken, and the size of its board.
#[derive(Debug)]
pub struct HistoryEntry {
    pub filename: String,
    pub timestamp: String,
    pub columns: usize,
    pub cards: usize,
}

/// What a `HistoryEntry` says.
#[verifier::ext_equal]
pub struct EntryData {
    pub filename: Seq<char>,
    pub timestamp: Seq<char>,
    pub columns: nat,
    pub cards: nat,
}

impl DeepView for HistoryEntry {
    type V = EntryData;

    open spec fn deep_view(&self) -> EntryData {
        EntryData {
            filename: self.filename@,
            timestamp: self.timestamp@,
            columns: self.columns as nat,
            cards: self.cards as nat,
        }
    }
}

impl Clone for HistoryEntry {
    fn clone(&self) -> (same: Self)
        ensures
            same.deep_view() == self.deep_view(),
    {
        HistoryEntry {
            filename: self.filename.clone(),
            timestamp: self.timestamp.clone(),
            columns: self.columns,
            cards: self.cards,
        }
    }
}

impl Default for HistoryEntry {
    fn default() -> (entry: Self)
        ensures
            entry.filename@.len() == 0,
            entry.timestamp@.len() == 0,
            entry.columns == 0,
            entry.cards == 0,
    {
        HistoryEntry { filename: String::new(), timestamp: String::new(), columns: 0, cards: 0 }
    }
}

/// The snapshots, oldest first.
#[derive(Debug)]
pub struct HistoryIndex {
    pub snapshots: Vec<HistoryEntry>,
}

impl View for HistoryIndex {
    type V = Seq<EntryData>;

    open spec fn view(&self) -> Seq<EntryData> {
        self.snapshots.deep_view()
    }
}

impl Default for HistoryIndex {
    fn default() -> (index: Self)
        ensures
            index@ == Seq::<EntryData>::empty(),
    {
        let index = HistoryIndex { snapshots: Vec::new() };
        assert(index@ =~= Seq::<EntryData>::empty());
        index
    }
}

/// How many of `count` snapshots have to go.
pub open spec fn surplus(count: nat) -> nat {
    if count > MAX_HISTORY {
        (count - MAX_HISTORY) as nat
    } else {
        0
    }
}

/// The snapshots that stay: the newest ones, as many as are kept.
pub open spec fn kept<T>(snapshots: Seq<T>) -> Seq<T> {
    snapshots.skip(surplus(snapshots.len()) as int)
}

/// The snapshots that go: all that are older than those that stay.
pub open spec fn retired<T>(snapshots: Seq<T>) -> Seq<T> {
    snapshots.take(surplus(snapshots.len()) as int)
}

/// The file of this name is that of one of these snapshots.
pub open spec fn names_file(snapshots: Seq<EntryData>, filename: Seq<char>) -> bool {
    exists|i: int| 0 <= i < snapshots.len() && #[trigger] snapshots[i].filename == filename
}

/// A snapshot whose file is that of none of the snapshots that stay.
pub open spec fn unneeded(staying: Seq<EntryData>) -> spec_fn(EntryData) -> bool {
    |old: EntryData| !names_file(staying, old.filename)
}

/// The snapshots whose files go, oldest first: those that go themselves, but for
/// the ones whose file is that of a snapshot that stays.
pub open spec fn outlived(snapshots: Seq<EntryData>) -> Seq<EntryData> {
    retired(snapshots).filter(unneeded(kept(snapshots)))
}

impl HistoryIndex {
    /// The same list again.
    pub fn duplicate(&self) -> (same: HistoryIndex)
        ensures
            same@ == self@,
    {
        let mut snapshots: Vec<HistoryEntry> = Vec::new();
        for i in 0..self.snapshots.len()
            invariant
                snapshots.len() == i,
                i <= self.snapshots.len(),
                forall|j: int| 0 <= j < i ==> #[trigger] snapshots[j].deep_view() == self.snapshots[j].deep_view(),
        {
            snapshots.push(self.snapshots[i].clone());
        }
        let same = HistoryIndex { snapshots };
        assert(same@ =~= self@);
        same
    }

    /// Tells whether the file of this name is that of a snapshot in the list.
    pub fn has_file(&self, filename: &String) -> (found: bool)
        ensures
            found == names_file(self@, filename@),
    {
        for i in 0..self.snapshots.len()
            invariant
                forall|j: int| 0 <= j < i ==> #[trigger] self@[j].filename != filename@,
        {
            if self.snapshots[i].filename == *filename {
                assert(self@[i as int].filename == filename@);
                return true;
            }
        }
        false
    }

    /// Adds `entry` as the newest snapshot and takes out the oldest ones past
    /// `MAX_HISTORY`. Gives back those of them, oldest first, whose files are
    /// needed no more: a file that is also that of a snapshot in the list stays.
    pub fn record(&mut self, entry: HistoryEntry) -> (gone: Vec<HistoryEntry>)
        ensures
            final(self)@ == kept(old(self)@.push(entry.deep_view())),
            gone.deep_view() == outlived(old(self)@.push(entry.deep_view())),
    {
        let ghost all = old(self)@.push(entry.deep_view());
        self.snapshots.push(entry);
        assert(self@ =~= all);
        let mut taken: Vec<HistoryEntry> = Vec::new();
        assert(all.skip(0) =~= all);
        assert(taken.deep_view() =~= all.take(0));
        while self.snapshots.len() > MAX_HISTORY
            invariant
                taken.len() <= surplus(all.len()),
                taken.len() <= all.len(),
                self@ == all.skip(taken.len() as int),
                taken.deep_view() == all.take(taken.len() as int),
            decreases self.snapshots.len(),
        {
            let ghost before = self@;
            let ghost n = taken.len() as int;
            let oldest = self.snapshots.remove(0);
            assert(oldest.deep_view() == before[0]);
            taken.push(oldest);
            assert(self@ =~= before.skip(1));
            assert(before.skip(1) =~= all.skip(n + 1));
            assert(taken.deep_view() =~= all.take(n + 1));
        }
        let mut gone: Vec<HistoryEntry> = Vec::new();
        let ghost old_ones = taken.deep_view();
        let ghost goes = unneeded(self@);
        assert(gone.deep_view() =~= old_ones.take(0).filter(goes));
        for i in 0..taken.len()
            invariant
                old_ones == taken.deep_view(),
                goes == unneeded(self@),
                gone.deep_view() == old_ones.take(i as int).filter(goes),
        {
            let ghost before = gone.deep_view();
            proof {
                old_ones.take(i as int).lemma_filter_push(old_ones[i as int], goes);
                assert(old_ones.take(i + 1) =~= old_ones.take(i as int).push(old_ones[i as int]));
            }
            if !self.has_file(&taken[i].filename) {
                gone.push(taken[i].clone());
                assert(gone.deep_view() =~= before.push(old_ones[i as int]));
            }
        }
        assert(old_ones.take(taken.len() as int) =~= old_ones);
        gone
    }
}

/// The list that was read from its file, and an empty one where there was no
/// file or it could not be understood.
pub fn read_index(loaded: Option<HistoryIndex>) -> (index: HistoryIndex)
    ensures
        index@ == or_empty(loaded_data(loaded)),
{
    match loaded {
        Some(index) => index,
        None => HistoryIndex::default(),
    }
}

/// What a list that was loaded from its file says, `None` where none was.
pub open spec fn loaded_data(loaded: Option<HistoryIndex>) -> Option<Seq<EntryData>> {
    match loaded {
        Some(index) => Some(index@),
        None => None,
    }
}

/// The list that counts: the loaded one, and an empty one where none was loaded.
pub open spec fn or_empty(loaded: Option<Seq<EntryData>>) -> Seq<EntryData> {
    match loaded {
        Some(index) => index,
        None => Seq::empty(),
    }
}

/// Every snapshot, oldest first, from the list that was read from its file.
pub fn list_history(loaded: Option<HistoryIndex>) -> (entries: Vec<HistoryEntry>)
    ensures
        entries.deep_view() == or_empty(loaded_data(loaded)),
{
    read_index(loaded).snapshots
}

/// The name of the file of the snapshot with this stamp.
pub open spec fn snapshot_name_spec(stamp: Seq<char>) -> Seq<char> {
    "state_"@ + stamp + ".json"@
}

/// The name of the file of the snapshot with this stamp.
pub fn snapshot_name(stamp: &str) -> (name: String)
    ensures
        name@ == snapshot_name_spec(stamp@),
{
    let mut name = "state_".to_owned();
    name.append(stamp);
    name.append(".json");
    name
}

} // verus!
