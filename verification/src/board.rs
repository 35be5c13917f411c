//! What a saved board's JSON text says about its size.
use vstd::prelude::*;

verus! {

/// A JSON value as `serde_json` holds it.
#[verifier::external_type_specification]
#[verifier::external_body]
pub struct ExValue(serde_json::Value);

/// What a JSON value holds by key: for an object, each key with the length of
/// the array under it, or with `None` where something else than an array is
/// under it. A value that is not an object holds nothing by key.
pub uninterp spec fn members(value: serde_json::Value) -> Map<Seq<char>, Option<nat>>;

/// How many items a JSON value holds by position: `None` unless it is an array.
pub uninterp spec fn item_count(value: serde_json::Value) -> Option<nat>;

/// What reading a text as JSON gives: what the value holds by key (as `members`
/// has it), or the words of the error where the text is not JSON.
pub uninterp spec fn json_reading(text: Seq<char>) -> Result<Map<Seq<char>, Option<nat>>, Seq<char>>;

/// Calls `serde_json::from_str` for a `serde_json::Value`, and turns an error
/// into its words. Whether the text is JSON, what the value then holds by key,
/// and the words of the error depend on the text alone: `json_reading` names
/// them.
#[verifier::external_body]
fn read_json(text: &str) -> (read: Result<serde_json::Value, String>)
    ensures
        match json_reading(text@) {
            Ok(held) => read is Ok && members(read->Ok_0) == held,
            Err(words) => read is Err && read->Err_0@ == words,
        },
{
    serde_json::from_str::<serde_json::Value>(text).map_err(|error| error.to_string())
}

/// Calls `serde_json::Value::get` with a string: the value under `key` in an
/// object, `None` where there is no such key or the value is not an object.
#[verifier::external_body]
fn member<'a>(value: &'a serde_json::Value, key: &str) -> (found: Option<&'a serde_json::Value>)
    ensures
        found is Some <==> members(*value).contains_key(key@),
        found is Some ==> item_count(*found->0) == members(*value)[key@],
{
    value.get(key)
}

/// `serde_json::Value::as_array` gives the items of an array, and `None` for
/// any other value.
pub assume_specification[ serde_json::Value::as_array ](value: &serde_json::Value) -> (items: Option<&Vec<serde_json::Value>>)
    ensures
        items is Some <==> item_count(*value) is Some,
        items is Some ==> items->0@.len() == item_count(*value)->0,
;

/// How many columns and how many cards a board has.
#[derive(Clone, Copy, PartialEq, Eq, Structural, Debug)]
pub struct BoardCounts {
    pub columns: usize,
    pub cards: usize,
}

/// The length of the array under `key`, and 0 where there is no array.
pub open spec fn array_length(held: Map<Seq<char>, Option<nat>>, key: Seq<char>) -> nat {
    if held.contains_key(key) && held[key] is Some {
        held[key]->0
    } else {
        0
    }
}

/// What counting a board gave: the numbers, or the words of the refusal.
pub type Counted = Result<(nat, nat), Seq<char>>;

/// The numbers of columns and cards that a reading of a board's text gives, or
/// the words of the error where it is not JSON.
pub open spec fn counts_in(reading: Result<Map<Seq<char>, Option<nat>>, Seq<char>>) -> Counted {
    match reading {
        Ok(held) => Ok((array_length(held, "columns"@), array_length(held, "cards"@))),
        Err(words) => Err(words),
    }
}

/// What a result of counting says.
pub open spec fn counted(counts: Result<BoardCounts, String>) -> Counted {
    match counts {
        Ok(counts) => Ok((counts.columns as nat, counts.cards as nat)),
        Err(words) => Err(words@),
    }
}

/// The length of the array under `key` in a JSON object, 0 where there is none.
pub fn length_under(board: &serde_json::Value, key: &str) -> (length: usize)
    ensures
        length == array_length(members(*board), key@),
{
    match member(board, key) {
        Some(value) => match value.as_array() {
            Some(items) => items.len(),
            None => 0,
        },
        None => 0,
    }
}

/// Counts the columns and the cards of a board from its JSON text. A text that
/// is not JSON is refused with the words of the JSON reader.
pub fn count_board(board_json: &str) -> (counts: Result<BoardCounts, String>)
    ensures
        counted(counts) == counts_in(json_reading(board_json@)),
{
    match read_json(board_json) {
        Ok(board) => Ok(
            BoardCounts {
                columns: length_under(&board, "columns"),
                cards: length_under(&board, "cards"),
            },
        ),
        Err(words) => Err(words),
    }
}

} // verus!
