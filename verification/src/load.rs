//! Reading a board back.
use vstd::prelude::*;

use crate::location::{history_dir, located, snapshot_place, Location};
use crate::text::{is_plain_name, is_plain_name_spec};

verus! {

/// The board that was saved last. `read` is what reading its file gave, and
/// `None` where there is no such file: then nothing was ever saved.
pub fn load_latest_state(read: Option<Result<String, String>>) -> (board: Result<Option<String>, String>)
    ensures
        match read {
            None => board == Ok::<Option<String>, String>(None),
            Some(Ok(text)) => board == Ok::<Option<String>, String>(Some(text)),
            Some(Err(words)) => board == Err::<Option<String>, String>(words),
        },
{
    match read {
        None => Ok(None),
        Some(Ok(text)) => Ok(Some(text)),
        Some(Err(words)) => Err(words),
    }
}

/// The file of a snapshot, by its name. A name with a path separator or with two
/// dots in a row is refused.
pub fn load_history_entry<B: Copy>(filename: &str, exe_dir: Result<Option<B>, String>) -> (file: Result<
    Location<B>,
    String,
>)
    ensures
        if is_plain_name_spec(filename@) {
            located(exe_dir, |b: B| snapshot_place(b, filename@), file)
        } else {
            file is Err && file->Err_0@ == "invalid filename"@
        },
{
    if !is_plain_name(filename) {
        return Err("invalid filename".to_owned());
    }
    match history_dir(exe_dir) {
        Ok(dir) => Ok(dir.join(filename)),
        Err(words) => Err(words),
    }
}

} // verus!
