//! What holds of names and places.
use vstd::prelude::*;

use crate::load::{load_history_entry, load_latest_state};
use crate::location::{
    data_dir, data_location, data_place, history_dir, history_location, history_place, index_path, index_place,
    latest_path, latest_place, snapshot_place, window_state_path, window_state_place, Location, Place,
};
use crate::text::{decimal, decimal_spec, has_double_dot, is_plain_name, is_plain_name_spec};

verus! {

/// `part` stands somewhere in `s`.
pub open spec fn holds_part(s: Seq<char>, part: Seq<char>) -> bool {
    exists|i: int| 0 <= i <= s.len() - part.len() && #[trigger] s.subrange(i, i + part.len()) == part
}

/// A name that is refused: two dots in a row, or a path separator of either kind,
/// stand somewhere in it.
pub open spec fn is_refused(name: Seq<char>) -> bool {
    holds_part(name, seq!['.', '.']) || holds_part(name, seq!['/']) || holds_part(name, seq!['\\'])
}

proof fn lemma_holds_char(s: Seq<char>, c: char)
    ensures
        holds_part(s, seq![c]) <==> s.contains(c),
{
    if s.contains(c) {
        let i = choose|i: int| 0 <= i < s.len() && s[i] == c;
        assert(s.subrange(i, i + 1) =~= seq![c]);
    }
    if holds_part(s, seq![c]) {
        let i = choose|i: int| 0 <= i <= s.len() - 1 && #[trigger] s.subrange(i, i + 1) == seq![c];
        assert(s.subrange(i, i + 1)[0] == s[i]);
    }
}

/// A name is refused exactly if it is not plain.
pub(crate) proof fn lemma_refused(name: Seq<char>)
    ensures
        is_refused(name) <==> !is_plain_name_spec(name),
{
    lemma_holds_char(name, '/');
    lemma_holds_char(name, '\\');
    let dots = seq!['.', '.'];
    if has_double_dot(name) {
        let i = choose|i: int| 0 <= i < name.len() - 1 && #[trigger] name[i] == '.' && name[i + 1] == '.';
        assert(name.subrange(i, i + 2) =~= dots);
    }
    if holds_part(name, dots) {
        let i = choose|i: int| 0 <= i <= name.len() - 2 && #[trigger] name.subrange(i, i + 2) == dots;
        assert(name.subrange(i, i + 2)[0] == name[i]);
        assert(name.subrange(i, i + 2)[1] == name[i + 1]);
        assert(name[i] == '.' && name[i + 1] == '.');
    }
}

/// A name is plain exactly if it is not refused.
pub proof fn law_plain_names_are_told(name: &str, plain: bool)
    requires
        call_ensures(is_plain_name, (name,), plain),
    ensures
        plain <==> !is_refused(name@),
{
    lemma_refused(name@);
}

/// The number that these decimal digits write.
pub open spec fn number_of(digits: Seq<char>) -> int
    decreases digits.len(),
{
    if digits.len() == 0 {
        0
    } else {
        10 * number_of(digits.drop_last()) + (digits.last() as int - '0' as int)
    }
}

pub(crate) proof fn lemma_decimal(n: nat)
    ensures
        number_of(decimal_spec(n)) == n,
        decimal_spec(n).len() > 0,
        forall|i: int| 0 <= i < decimal_spec(n).len() ==> '0' <= #[trigger] decimal_spec(n)[i] <= '9',
        n > 0 ==> decimal_spec(n)[0] != '0',
        n == 0 ==> decimal_spec(n).len() == 1,
    decreases n,
{
    reveal_with_fuel(number_of, 2);
    let text = decimal_spec(n);
    if n < 10 {
        assert(text.drop_last() =~= seq![]);
    } else {
        lemma_decimal(n / 10);
        assert(text.drop_last() =~= decimal_spec(n / 10));
    }
}

/// A number in decimal is read back as that number: it is made of digits, with no
/// zero before them.
pub proof fn law_decimal_is_read_back(n: u128, text: String)
    requires
        call_ensures(decimal, (n,), text),
    ensures
        number_of(text@) == n,
        text@.len() > 0,
        forall|i: int| 0 <= i < text@.len() ==> '0' <= #[trigger] text@[i] <= '9',
        text@[0] == '0' ==> n == 0 && text@.len() == 1,
{
    lemma_decimal(n as nat);
}

/// The file of this name in the application's directory, `kanban-data` beside the
/// executable.
pub open spec fn data_file<B>(exe_dir: B, name: Seq<char>) -> Place<B> {
    Place { base: exe_dir, parts: seq!["kanban-data"@, name] }
}

/// The file of this name in the directory of the snapshots, `history` in the
/// application's directory.
pub open spec fn history_file<B>(exe_dir: B, name: Seq<char>) -> Place<B> {
    Place { base: exe_dir, parts: seq!["kanban-data"@, "history"@, name] }
}

/// Each place is where it is said to be.
pub(crate) proof fn lemma_places<B>(exe_dir: B)
    ensures
        data_place(exe_dir) == (Place { base: exe_dir, parts: seq!["kanban-data"@] }),
        history_place(exe_dir) == data_file(exe_dir, "history"@),
        latest_place(exe_dir) == data_file(exe_dir, "latest.json"@),
        window_state_place(exe_dir) == data_file(exe_dir, "window-state.json"@),
        index_place(exe_dir) == history_file(exe_dir, "index.json"@),
        forall|name: Seq<char>| #[trigger] snapshot_place(exe_dir, name) == history_file(exe_dir, name),
{
    assert(history_place(exe_dir).parts =~= data_file(exe_dir, "history"@).parts);
    assert(latest_place(exe_dir).parts =~= data_file(exe_dir, "latest.json"@).parts);
    assert(window_state_place(exe_dir).parts =~= data_file(exe_dir, "window-state.json"@).parts);
    assert(index_place(exe_dir).parts =~= history_file(exe_dir, "index.json"@).parts);
    assert forall|name: Seq<char>| #[trigger] snapshot_place(exe_dir, name) == history_file(exe_dir, name) by {
        assert(snapshot_place(exe_dir, name).parts =~= history_file(exe_dir, name).parts);
    }
}

/// A path that could not be told, because the executable could not be found: the
/// words say why.
pub open spec fn is_lost<B>(exe_dir: Result<Option<B>, String>, found: Result<Location<B>, String>) -> bool {
    &&& exe_dir matches Err(words) ==> found is Err && found->Err_0@ == words@
    &&& exe_dir matches Ok(None) ==> found is Err && found->Err_0@ == "could not resolve executable directory"@
}

/// Every path lies where it is said to lie, beside the executable, if that is
/// found; and otherwise the words say why there is none.
pub proof fn law_files_lie_beside_the_executable<B: Copy>(
    exe_dir: Result<Option<B>, String>,
    data: Result<Location<B>, String>,
    history: Result<Location<B>, String>,
    window: Result<Location<B>, String>,
    latest: Result<Location<B>, String>,
    index: Result<Location<B>, String>,
)
    requires
        call_ensures(data_dir::<B>, (exe_dir,), data),
        call_ensures(history_dir::<B>, (exe_dir,), history),
        call_ensures(window_state_path::<B>, (exe_dir,), window),
        call_ensures(latest_path::<B>, (exe_dir,), latest),
        call_ensures(index_path::<B>, (exe_dir,), index),
    ensures
        is_lost(exe_dir, data),
        is_lost(exe_dir, history),
        is_lost(exe_dir, window),
        is_lost(exe_dir, latest),
        is_lost(exe_dir, index),
        exe_dir matches Ok(Some(dir)) ==> {
            &&& data is Ok && data->Ok_0@ == (Place { base: dir, parts: seq!["kanban-data"@] })
            &&& history is Ok && history->Ok_0@ == data_file(dir, "history"@)
            &&& window is Ok && window->Ok_0@ == data_file(dir, "window-state.json"@)
            &&& latest is Ok && latest->Ok_0@ == data_file(dir, "latest.json"@)
            &&& index is Ok && index->Ok_0@ == history_file(dir, "index.json"@)
        },
{
    if let Ok(Some(dir)) = exe_dir {
        lemma_places(dir);
    }
}

/// The two directories lie where they are said to lie, beside the executable.
pub proof fn law_directories_lie_beside_the_executable<B: Copy>(
    exe_dir: B,
    data: Location<B>,
    history: Location<B>,
)
    requires
        call_ensures(data_location::<B>, (exe_dir,), data),
        call_ensures(history_location::<B>, (exe_dir,), history),
    ensures
        data@ == (Place { base: exe_dir, parts: seq!["kanban-data"@] }),
        history@ == data_file(exe_dir, "history"@),
{
    lemma_places(exe_dir);
}

/// A path says its base and the names below it, one after the other.
pub proof fn law_path_says_its_names<B>(path: Location<B>)
    ensures
        path@.base == path.base,
        path@.parts.len() == path.parts@.len(),
        forall|i: int| 0 <= i < path.parts@.len() ==> #[trigger] path@.parts[i] == path.parts@[i]@,
{
}

/// A name is put below a path as it is, and a copy of a path is the same path.
pub proof fn law_paths_are_built<B: Copy>(
    base: B,
    here: Location<B>,
    path: Location<B>,
    same: Location<B>,
    name: &str,
    below: Location<B>,
)
    requires
        call_ensures(Location::<B>::at, (base,), here),
        call_ensures(Location::<B>::duplicate, (&path,), same),
        call_ensures(Location::<B>::join, (&path, name), below),
    ensures
        here@.base == base,
        here@.parts.len() == 0,
        same@ == path@,
        below@.base == path@.base,
        below@.parts.len() == path@.parts.len() + 1,
        forall|i: int| 0 <= i < path@.parts.len() ==> #[trigger] below@.parts[i] == path@.parts[i],
        below@.parts.last() == name@,
{
}

/// A snapshot is looked up under its own name in the directory of the snapshots;
/// a name with two dots in a row or a path separator is refused.
pub proof fn law_snapshot_is_looked_up_by_its_name<B: Copy>(
    filename: &str,
    exe_dir: Result<Option<B>, String>,
    file: Result<Location<B>, String>,
)
    requires
        call_ensures(load_history_entry::<B>, (filename, exe_dir), file),
    ensures
        is_refused(filename@) ==> file is Err && file->Err_0@ == "invalid filename"@,
        !is_refused(filename@) ==> is_lost(exe_dir, file),
        !is_refused(filename@) ==> (exe_dir matches Ok(Some(dir)) ==> file is Ok && file->Ok_0@ == history_file(
            dir,
            filename@,
        )),
{
    lemma_refused(filename@);
    if let Ok(Some(dir)) = exe_dir {
        lemma_places(dir);
    }
}

/// The board saved last is what its file holds; without a file there is none, and
/// a file that cannot be read is told.
pub proof fn law_latest_board_is_what_was_read(
    read: Option<Result<String, String>>,
    board: Result<Option<String>, String>,
)
    requires
        call_ensures(load_latest_state, (read,), board),
    ensures
        read is None <==> board == Ok::<Option<String>, String>(None),
        read matches Some(Ok(text)) ==> (board matches Ok(Some(same)) && same@ == text@),
        read matches Some(Err(words)) ==> (board matches Err(same) && same@ == words@),
{
}

} // verus!
