use kanban_desktop::external::{write_external_file, ExternalTurn};
use kanban_desktop::files::{fits, Reply, Request};
use kanban_desktop::geometry::fallback_window_state;
use kanban_desktop::keep::{write_window_state, KeepState};

fn start() -> KeepState<&'static str> {
    write_window_state(fallback_window_state(), Ok(Some("/app"))).unwrap()
}

#[test]
fn the_window_state_is_written_beside_the_board() {
    let keep = start();
    match keep.request() {
        Request::CreateDirAll { dir } => assert_eq!(dir.parts, vec!["kanban-data"]),
        _ => panic!("something else"),
    }
    let keep = keep.resume(Reply::Done).unwrap();
    match keep.request() {
        Request::EncodeState { state } => assert_eq!(state, fallback_window_state()),
        _ => panic!("something else"),
    }
    let keep = keep.resume(Reply::Encoded("text".to_string())).unwrap();
    let request = keep.request();
    assert!(fits(&request, &Reply::Done));
    match request {
        Request::WriteText { file, text } => {
            assert_eq!(file.base, "/app");
            assert_eq!(file.parts, vec!["kanban-data", "window-state.json"]);
            assert_eq!(text, "text");
        }
        _ => panic!("something else"),
    }
    assert!(keep.resume(Reply::Done).is_none());
}

#[test]
fn failures_to_keep_the_window_state_pass_in_silence() {
    let keep = start().resume(Reply::Failed("denied".to_string())).unwrap();
    assert!(matches!(keep.request(), Request::EncodeState { .. }));
    assert!(keep.resume(Reply::Failed("no text".to_string())).is_none());
    let state = fallback_window_state();
    assert!(write_window_state::<&str>(state, Ok(None)).is_none());
    assert!(write_window_state::<&str>(state, Err("denied".to_string())).is_none());
}

#[test]
fn a_chosen_file_is_written_once_its_directory_is_there() {
    let write = write_external_file("/a/b", Some("/a"), "text".to_string());
    match write.request() {
        Request::CreateDirAll { dir } => {
            assert_eq!(dir.base, "/a");
            assert!(dir.parts.is_empty());
        }
        _ => panic!("something else"),
    }
    let write = match write.resume(Reply::Done) {
        ExternalTurn::Wait(write) => write,
        ExternalTurn::End(_) => panic!("ended"),
    };
    match write.request() {
        Request::WriteText { file, text } => {
            assert_eq!(file.base, "/a/b");
            assert!(file.parts.is_empty());
            assert_eq!(text, "text");
        }
        _ => panic!("something else"),
    }
    assert!(matches!(write.resume(Reply::Done), ExternalTurn::End(Ok(()))));
}

#[test]
fn a_chosen_file_without_a_directory_is_written_at_once() {
    let write = write_external_file("b", None, "text".to_string());
    assert!(matches!(write.request(), Request::WriteText { .. }));
    match write.resume(Reply::Failed("full".to_string())) {
        ExternalTurn::End(Err(words)) => assert_eq!(words, "full"),
        _ => panic!("went on"),
    }
    let write = write_external_file("/a/b", Some("/a"), "text".to_string());
    match write.resume(Reply::Failed("denied".to_string())) {
        ExternalTurn::End(Err(words)) => assert_eq!(words, "denied"),
        _ => panic!("went on"),
    }
}
