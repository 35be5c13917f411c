//! What is asked of the file system to write a file, and what comes of the
//! answers.
use vstd::prelude::*;

use crate::external::{write_external_file, ExternalTurn, ExternalWrite};
use crate::files::{
    atomic_write, fits, temp_name, temp_name_spec, Answer, Asked, AtomicWrite, Reply, Request, WriteTurn,
};
use crate::geometry::WindowState;
use crate::keep::{write_window_state, KeepState};
use crate::location::{Location, Place};
use crate::place_laws::{data_file, lemma_decimal, lemma_places, number_of};
use crate::text::decimal_spec;

verus! {

/// What is asked is what the request says.
pub proof fn law_request_says_what_is_asked<B>(request: Request<B>)
    ensures
        match request {
            Request::CreateDirAll { dir } => request@ == (Asked::CreateDirAll { dir: dir@ }),
            Request::ReadClock => request@ is ReadClock,
            Request::WriteText { file, text } => request@ == (Asked::WriteText { file: file@, text: text@ }),
            Request::Rename { from, to } => request@ == (Asked::Rename { from: from@, to: to@ }),
            Request::ReadIndex { file } => request@ == (Asked::ReadIndex { file: file@ }),
            Request::RemoveFile { file } => request@ == (Asked::RemoveFile { file: file@ }),
            Request::EncodeIndex { index } => request@ == (Asked::<B>::EncodeIndex { index: index@ }),
            Request::EncodeState { state } => request@ == (Asked::<B>::EncodeState { state }),
        },
{
}

/// What is answered is what the reply says.
pub proof fn law_reply_says_what_is_answered(reply: Reply)
    ensures
        match reply {
            Reply::Done => reply@ is Done,
            Reply::Failed(words) => reply@ == Answer::Failed(words@),
            Reply::Clock { process, nanos } => reply@ == (Answer::Clock { process, nanos }),
            Reply::Index(Some(index)) => reply@ == Answer::Index(Some(index@)),
            Reply::Index(None) => reply@ == Answer::Index(None),
            Reply::Encoded(text) => reply@ == Answer::Encoded(text@),
        },
{
}

/// A clock tells the time, a list that is read is a list, what is turned into
/// text is a text or has failed, and everything else is done or has failed.
pub proof fn law_reply_fits_its_request<B>(request: Request<B>, reply: Reply, fit: bool)
    requires
        call_ensures(fits::<B>, (&request, &reply), fit),
    ensures
        request is ReadClock ==> fit == (reply is Clock),
        request is ReadIndex ==> fit == (reply is Index),
        request is EncodeIndex || request is EncodeState ==> fit == (reply is Encoded || reply is Failed),
        request is CreateDirAll || request is WriteText || request is Rename || request is RemoveFile ==> fit == (
        reply is Done || reply is Failed),
{
}

/// Whatever fits a request can be given as its answer.
pub proof fn law_what_fits_can_be_answered<B: Copy>(
    reply: Reply,
    write: AtomicWrite<B>,
    external: ExternalWrite<B>,
    keep: KeepState<B>,
    requests: Seq<Request<B>>,
)
    requires
        requests.len() == 3,
        call_ensures(AtomicWrite::<B>::request, (&write,), requests[0]),
        call_ensures(ExternalWrite::<B>::request, (&external,), requests[1]),
        call_ensures(KeepState::<B>::request, (&keep,), requests[2]),
    ensures
        call_ensures(fits::<B>, (&requests[0], &reply), true) ==> call_requires(
            AtomicWrite::<B>::resume,
            (write, reply),
        ),
        call_ensures(fits::<B>, (&requests[1], &reply), true) ==> call_requires(
            ExternalWrite::<B>::resume,
            (external, reply),
        ),
        call_ensures(fits::<B>, (&requests[2], &reply), true) ==> call_requires(
            KeepState::<B>::resume,
            (keep, reply),
        ),
{
}

/// The time that a clock tells, 0 for a clock that stands before 1970.
pub open spec fn since_1970(nanos: Option<u128>) -> int {
    match nanos {
        Some(nanos) => nanos as int,
        None => 0,
    }
}

/// The name of a file that a text is written to first: a dot, `tmp`, the number of
/// the process, and the time.
pub open spec fn is_temp_name(name: Seq<char>, process: u32, nanos: Option<u128>) -> bool {
    exists|number: Seq<char>, time: Seq<char>|
        {
            &&& name == seq!['.', 't', 'm', 'p', '_'] + number + seq!['_'] + time
            &&& #[trigger] is_decimal_of(number, process as int)
            &&& #[trigger] is_decimal_of(time, since_1970(nanos))
        }
}

/// Decimal digits, without a zero before them, that write this number.
pub open spec fn is_decimal_of(digits: Seq<char>, number: int) -> bool {
    &&& number_of(digits) == number
    &&& digits.len() > 0
    &&& forall|i: int| 0 <= i < digits.len() ==> '0' <= #[trigger] digits[i] <= '9'
    &&& digits[0] == '0' ==> digits.len() == 1
}

proof fn lemma_temp_name_says(process: u32, nanos: Option<u128>)
    ensures
        is_temp_name(temp_name_spec(process, nanos), process, nanos),
{
    reveal_strlit(".tmp_");
    reveal_strlit("_");
    let number = decimal_spec(process as nat);
    let time = decimal_spec(nanos.unwrap_or(0) as nat);
    lemma_decimal(process as nat);
    lemma_decimal(nanos.unwrap_or(0) as nat);
    assert(is_decimal_of(number, process as int));
    assert(is_decimal_of(time, since_1970(nanos)));
    assert(".tmp_"@ =~= seq!['.', 't', 'm', 'p', '_']);
    assert("_"@ =~= seq!['_']);
}

/// The name of a file that a text is written to first tells the process and the
/// time.
pub proof fn law_temp_name_tells_process_and_time(process: u32, nanos: Option<u128>, name: String)
    requires
        call_ensures(temp_name, (process, nanos), name),
    ensures
        is_temp_name(name@, process, nanos),
{
    lemma_temp_name_says(process, nanos);
}

/// A file of this name lies in this directory.
pub open spec fn lies_in<B>(file: Place<B>, dir: Place<B>, name: Seq<char>) -> bool {
    &&& file.base == dir.base
    &&& file.parts.len() == dir.parts.len() + 1
    &&& forall|i: int| 0 <= i < dir.parts.len() ==> #[trigger] file.parts[i] == dir.parts[i]
    &&& file.parts.last() == name
}

/// Replacing a file asks, in this order, for the directory to be created, for the
/// time, for the whole text to be written to a file of another name in that
/// directory, and for that file to take the place of the one to be replaced; and
/// then it has ended well.
pub proof fn law_replacing_asks_in_order<B: Copy>(
    dir: Location<B>,
    file: Location<B>,
    text: String,
    process: u32,
    nanos: Option<u128>,
    write: AtomicWrite<B>,
    turns: Seq<WriteTurn<B>>,
    requests: Seq<Request<B>>,
)
    requires
        turns.len() == 4,
        requests.len() == 4,
        call_ensures(atomic_write::<B>, (dir, file, text), write),
        call_ensures(AtomicWrite::<B>::request, (&write,), requests[0]),
        call_ensures(AtomicWrite::<B>::resume, (write, Reply::Done), turns[0]),
        call_ensures(AtomicWrite::<B>::request, (&turns[0]->Wait_0,), requests[1]),
        call_ensures(AtomicWrite::<B>::resume, (turns[0]->Wait_0, Reply::Clock { process, nanos }), turns[1]),
        call_ensures(AtomicWrite::<B>::request, (&turns[1]->Wait_0,), requests[2]),
        call_ensures(AtomicWrite::<B>::resume, (turns[1]->Wait_0, Reply::Done), turns[2]),
        call_ensures(AtomicWrite::<B>::request, (&turns[2]->Wait_0,), requests[3]),
        call_ensures(AtomicWrite::<B>::resume, (turns[2]->Wait_0, Reply::Done), turns[3]),
    ensures
        turns[0] is Wait,
        turns[1] is Wait,
        turns[2] is Wait,
        turns[3] matches WriteTurn::End(outcome) && outcome is Ok,
        requests[0]@ == (Asked::CreateDirAll { dir: dir@ }),
        requests[1]@ is ReadClock,
        requests[2]@ matches Asked::WriteText { file: temp, text: written } && {
            &&& written == text@
            &&& requests[3]@ == (Asked::Rename { from: temp, to: file@ })
            &&& exists|name: Seq<char>| #[trigger] lies_in(temp, dir@, name) && is_temp_name(name, process, nanos)
        },
{
    lemma_temp_name_says(process, nanos);
    let name = temp_name_spec(process, nanos);
    assert(turns[0]@ is Wait);
    assert(turns[1]@ is Wait);
    assert(turns[2]@ is Wait);
    assert(turns[3]@ is End);
    assert(lies_in(dir@.join(name), dir@, name));
}

/// Replacing a file ends with the words of the first work that fails.
pub proof fn law_replacing_fails_with_its_cause<B: Copy>(write: AtomicWrite<B>, words: String, turn: WriteTurn<B>)
    requires
        call_ensures(AtomicWrite::<B>::resume, (write, Reply::Failed(words)), turn),
    ensures
        turn matches WriteTurn::End(Err(told)) && told@ == words@,
{
    assert(turn@ is End);
}

/// Writing a file that the user chose asks for its directory to be created, if its
/// path has one, and then for the contents to be written to it, and has then
/// ended well; a failure ends it with its words.
pub proof fn law_chosen_file_is_written_in_order<B: Copy>(
    path: B,
    parent: B,
    contents: String,
    words: String,
    below: ExternalWrite<B>,
    alone: ExternalWrite<B>,
    made: ExternalTurn<B>,
    done: ExternalTurn<B>,
    done_alone: ExternalTurn<B>,
    unmade: ExternalTurn<B>,
    undone: ExternalTurn<B>,
    requests: Seq<Request<B>>,
)
    requires
        requests.len() == 3,
        call_ensures(write_external_file::<B>, (path, Some(parent), contents), below),
        call_ensures(write_external_file::<B>, (path, None, contents), alone),
        call_ensures(ExternalWrite::<B>::request, (&below,), requests[0]),
        call_ensures(ExternalWrite::<B>::resume, (below, Reply::Done), made),
        call_ensures(ExternalWrite::<B>::request, (&made->Wait_0,), requests[1]),
        call_ensures(ExternalWrite::<B>::resume, (made->Wait_0, Reply::Done), done),
        call_ensures(ExternalWrite::<B>::request, (&alone,), requests[2]),
        call_ensures(ExternalWrite::<B>::resume, (alone, Reply::Done), done_alone),
        call_ensures(ExternalWrite::<B>::resume, (below, Reply::Failed(words)), unmade),
        call_ensures(ExternalWrite::<B>::resume, (alone, Reply::Failed(words)), undone),
    ensures
        requests[0]@ matches Asked::CreateDirAll { dir } && dir.base == parent && dir.parts.len() == 0,
        made is Wait,
        requests[1]@ matches Asked::WriteText { file, text } && file.base == path && file.parts.len() == 0 && text
            == contents@,
        done matches ExternalTurn::End(outcome) && outcome is Ok,
        requests[2]@ == requests[1]@,
        done_alone matches ExternalTurn::End(outcome) && outcome is Ok,
        unmade matches ExternalTurn::End(Err(told)) && told@ == words@,
        undone matches ExternalTurn::End(Err(told)) && told@ == words@,
{
    assert(made@ is Wait);
    assert(done@ is End);
    assert(done_alone@ is End);
    assert(unmade@ is End);
    assert(undone@ is End);
}

/// Keeping the window's place asks for the application's directory to be created,
/// for the state to be turned into text, and for that text to be written to
/// `window-state.json`. A directory that could not be created does not count; a
/// state that has no text ends it. Without the executable nothing is kept.
pub proof fn law_window_state_is_kept_in_order<B: Copy>(
    state: WindowState,
    exe_dir: B,
    lost: Result<Option<B>, String>,
    created: Reply,
    text: String,
    words: String,
    written: Reply,
    none: Option<KeepState<B>>,
    keep: Option<KeepState<B>>,
    encoding: Option<KeepState<B>>,
    writing: Option<KeepState<B>>,
    end: Option<KeepState<B>>,
    unsaid: Option<KeepState<B>>,
    requests: Seq<Request<B>>,
)
    requires
        requests.len() == 3,
        !(lost matches Ok(Some(_))),
        call_ensures(write_window_state::<B>, (state, lost), none),
        call_ensures(write_window_state::<B>, (state, Ok(Some(exe_dir))), keep),
        call_ensures(KeepState::<B>::request, (&keep->0,), requests[0]),
        call_ensures(KeepState::<B>::resume, (keep->0, created), encoding),
        call_ensures(KeepState::<B>::request, (&encoding->0,), requests[1]),
        call_ensures(KeepState::<B>::resume, (encoding->0, Reply::Encoded(text)), writing),
        call_ensures(KeepState::<B>::resume, (encoding->0, Reply::Failed(words)), unsaid),
        call_ensures(KeepState::<B>::request, (&writing->0,), requests[2]),
        call_ensures(KeepState::<B>::resume, (writing->0, written), end),
    ensures
        none is None,
        keep is Some,
        requests[0]@ == (Asked::CreateDirAll { dir: Place { base: exe_dir, parts: seq!["kanban-data"@] } }),
        encoding is Some,
        requests[1]@ == (Asked::<B>::EncodeState { state }),
        writing is Some,
        requests[2]@ == (Asked::WriteText { file: data_file(exe_dir, "window-state.json"@), text: text@ }),
        end is None,
        unsaid is None,
{
    lemma_places(exe_dir);
}

} // verus!
