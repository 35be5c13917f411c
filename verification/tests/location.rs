use kanban_desktop::load::{load_history_entry, load_latest_state};
use kanban_desktop::location::{
    data_dir, history_dir, index_path, latest_path, window_state_path, Location,
};

fn parts(found: Result<Location<&str>, String>) -> Result<(String, Vec<String>), String> {
    found.map(|location| (location.base.to_string(), location.parts))
}

fn at(names: &[&str]) -> Result<(String, Vec<String>), String> {
    Ok(("/opt/app".to_string(), names.iter().map(|name| name.to_string()).collect()))
}

#[test]
fn files_lie_beside_the_executable() {
    let exe = || Ok(Some("/opt/app"));
    assert_eq!(parts(data_dir(exe())), at(&["kanban-data"]));
    assert_eq!(parts(history_dir(exe())), at(&["kanban-data", "history"]));
    assert_eq!(parts(latest_path(exe())), at(&["kanban-data", "latest.json"]));
    assert_eq!(parts(index_path(exe())), at(&["kanban-data", "history", "index.json"]));
    assert_eq!(parts(window_state_path(exe())), at(&["kanban-data", "window-state.json"]));
}

#[test]
fn without_an_executable_there_is_no_directory() {
    let lost = "could not resolve executable directory".to_string();
    assert_eq!(parts(data_dir(Ok(None))), Err(lost.clone()));
    assert_eq!(parts(history_dir(Ok(None))), Err(lost.clone()));
    assert_eq!(parts(window_state_path(Ok(None))), Err(lost.clone()));
    assert_eq!(parts(latest_path(Ok(None))), Err(lost.clone()));
    assert_eq!(parts(index_path(Ok(None))), Err(lost));
    assert_eq!(parts(data_dir(Err("denied".to_string()))), Err("denied".to_string()));
    assert_eq!(parts(history_dir(Err("denied".to_string()))), Err("denied".to_string()));
    assert_eq!(parts(window_state_path(Err("denied".to_string()))), Err("denied".to_string()));
}

#[test]
fn a_snapshot_is_looked_up_in_its_directory() {
    assert_eq!(
        parts(load_history_entry("state_1.json", Ok(Some("/opt/app")))),
        at(&["kanban-data", "history", "state_1.json"])
    );
    assert_eq!(
        parts(load_history_entry("state_1.json", Err("denied".to_string()))),
        Err("denied".to_string())
    );
}

#[test]
fn a_name_that_is_not_plain_is_refused() {
    for name in ["../latest.json", "a/b", "a\\b", "..", "x..json"] {
        assert_eq!(
            parts(load_history_entry(name, Ok(Some("/opt/app")))),
            Err("invalid filename".to_string())
        );
        assert_eq!(
            parts(load_history_entry(name, Err("denied".to_string()))),
            Err("invalid filename".to_string())
        );
    }
}

#[test]
fn the_board_saved_last_is_optional() {
    assert_eq!(load_latest_state(None), Ok(None));
    assert_eq!(load_latest_state(Some(Ok("{}".to_string()))), Ok(Some("{}".to_string())));
    assert_eq!(load_latest_state(Some(Err("denied".to_string()))), Err("denied".to_string()));
}
