use std::collections::HashMap;

use kanban_desktop::board::BoardCounts;
use kanban_desktop::files::{atomic_write, fits, temp_name, Reply, Request, WriteTurn};
use kanban_desktop::history::{
    list_history, read_index, snapshot_name, HistoryEntry, HistoryIndex, MAX_HISTORY,
};
use kanban_desktop::load::load_history_entry;
use kanban_desktop::location::Location;
use kanban_desktop::save::{save_counted_snapshot, save_snapshot, SaveSnapshot, SaveTurn};

type Entry = (String, String, usize, usize);

fn flat(entry: &HistoryEntry) -> Entry {
    (entry.filename.clone(), entry.timestamp.clone(), entry.columns, entry.cards)
}

fn rebuilt(entry: &Entry) -> HistoryEntry {
    HistoryEntry {
        filename: entry.0.clone(),
        timestamp: entry.1.clone(),
        columns: entry.2,
        cards: entry.3,
    }
}

/// A disk in memory that fails when told to and writes down what is asked.
#[derive(Default)]
struct Disk {
    files: HashMap<String, String>,
    index: Option<Vec<Entry>>,
    asked: Vec<String>,
    fail_at: Option<usize>,
    clock: u128,
}

fn name(location: &Location<&str>) -> String {
    let mut path = location.base.to_string();
    for part in &location.parts {
        path.push('/');
        path.push_str(part);
    }
    path
}

impl Disk {
    fn perform(&mut self, request: &Request<&str>) -> Reply {
        let number = self.asked.len();
        let failed = self.fail_at == Some(number);
        let words = format!("failure {}", number);
        let (line, reply) = match request {
            Request::CreateDirAll { dir } => (format!("mkdir {}", name(dir)), Reply::Done),
            Request::ReadClock => {
                self.clock += 1;
                ("clock".to_string(), Reply::Clock { process: 7, nanos: Some(self.clock) })
            }
            Request::WriteText { file, text } => {
                let half = text[..text.len() / 2].to_string();
                self.files.insert(name(file), if failed { half } else { text.clone() });
                (format!("write {}", name(file)), Reply::Done)
            }
            Request::Rename { from, to } => {
                if !failed {
                    let text = self.files.remove(&name(from)).unwrap();
                    self.files.insert(name(to), text);
                }
                (format!("rename {} {}", name(from), name(to)), Reply::Done)
            }
            Request::ReadIndex { file } => {
                let loaded = self.index.as_ref().map(|entries| HistoryIndex {
                    snapshots: entries.iter().map(rebuilt).collect(),
                });
                (format!("read {}", name(file)), Reply::Index(loaded))
            }
            Request::RemoveFile { file } => {
                if !failed {
                    self.files.remove(&name(file));
                }
                (format!("remove {}", name(file)), Reply::Done)
            }
            Request::EncodeIndex { index } => {
                self.index = Some(index.snapshots.iter().map(flat).collect());
                (
                    format!("encode {}", index.snapshots.len()),
                    Reply::Encoded(format!("{} entries", index.snapshots.len())),
                )
            }
            Request::EncodeState { .. } => panic!("not part of saving"),
        };
        self.asked.push(line);
        let reply = match (failed, reply) {
            (true, Reply::Done) | (true, Reply::Encoded(_)) => Reply::Failed(words),
            (_, reply) => reply,
        };
        assert!(fits(request, &reply));
        reply
    }

    fn save(&mut self, start: Result<SaveSnapshot<&str>, String>) -> Result<Vec<Entry>, String> {
        let mut save = start?;
        loop {
            let reply = self.perform(&save.request());
            match save.resume(reply) {
                SaveTurn::Wait(next) => save = next,
                SaveTurn::End(Ok(entries)) => return Ok(entries.iter().map(flat).collect()),
                SaveTurn::End(Err(words)) => return Err(words),
            }
        }
    }

    fn text(&self, file: &str) -> Option<&str> {
        self.files.get(file).map(|text| text.as_str())
    }
}

const BOARD: &str = "{\"columns\": [1, 2], \"cards\": [3]}";
const LATEST: &str = "/app/kanban-data/latest.json";
const INDEX: &str = "/app/kanban-data/history/index.json";

fn start(stamp: &str) -> Result<SaveSnapshot<&'static str>, String> {
    save_snapshot(
        BOARD.to_string(),
        stamp.to_string(),
        format!("at {}", stamp),
        Ok(Some("/app")),
    )
}

fn error(start: Result<SaveSnapshot<&str>, String>) -> String {
    match start {
        Ok(_) => panic!("accepted"),
        Err(words) => words,
    }
}

#[test]
fn a_snapshot_is_saved_step_by_step() {
    let mut disk = Disk::default();
    let entries = disk.save(start("s1")).unwrap();
    assert_eq!(entries, vec![("state_s1.json".to_string(), "at s1".to_string(), 2, 1)]);
    assert_eq!(
        disk.asked,
        vec![
            "mkdir /app/kanban-data/history",
            "mkdir /app/kanban-data/history",
            "clock",
            "write /app/kanban-data/history/.tmp_7_1",
            "rename /app/kanban-data/history/.tmp_7_1 /app/kanban-data/history/state_s1.json",
            "mkdir /app/kanban-data",
            "clock",
            "write /app/kanban-data/.tmp_7_2",
            "rename /app/kanban-data/.tmp_7_2 /app/kanban-data/latest.json",
            "read /app/kanban-data/history/index.json",
            "encode 1",
            "mkdir /app/kanban-data/history",
            "clock",
            "write /app/kanban-data/history/.tmp_7_3",
            "rename /app/kanban-data/history/.tmp_7_3 /app/kanban-data/history/index.json",
        ]
    );
}

#[test]
fn a_saved_board_can_be_read_back() {
    let mut disk = Disk::default();
    disk.save(start("s1")).unwrap();
    let other = save_snapshot(
        "[]".to_string(),
        "s2".to_string(),
        "later".to_string(),
        Ok(Some("/app")),
    );
    let entries = disk.save(other).unwrap();
    assert_eq!(disk.text(LATEST), Some("[]"));
    let found = load_history_entry(&entries[0].0, Ok(Some("/app"))).unwrap();
    assert_eq!(disk.text(&name(&found)), Some(BOARD));
    let found = load_history_entry(&entries[1].0, Ok(Some("/app"))).unwrap();
    assert_eq!(disk.text(&name(&found)), Some("[]"));
    assert_eq!(disk.text(INDEX), Some("2 entries"));
    assert_eq!(disk.index, Some(entries));
}

#[test]
fn the_oldest_snapshots_go() {
    let mut disk = Disk::default();
    for i in 0..MAX_HISTORY + 3 {
        disk.save(start(&format!("s{}", i))).unwrap();
    }
    let entries = disk.index.clone().unwrap();
    assert_eq!(entries.len(), 50);
    assert_eq!(entries[0].0, "state_s3.json");
    assert_eq!(entries[49].0, "state_s52.json");
    assert_eq!(disk.text("/app/kanban-data/history/state_s2.json"), None);
    for entry in &entries {
        assert_eq!(disk.text(&format!("/app/kanban-data/history/{}", entry.0)), Some(BOARD));
    }
}

#[test]
fn a_long_list_is_cut_at_once_oldest_first() {
    let mut disk = Disk::default();
    disk.index = Some(
        (0..52)
            .map(|i| (format!("old{}", i), "".to_string(), i, 0))
            .collect(),
    );
    let entries = disk.save(start("new")).unwrap();
    assert_eq!(entries.len(), 50);
    assert_eq!(entries[0].2, 3);
    assert_eq!(entries[49].0, "state_new.json");
    let removed: Vec<&String> = disk.asked.iter().filter(|line| line.starts_with("remove")).collect();
    assert_eq!(
        removed,
        vec![
            "remove /app/kanban-data/history/old0",
            "remove /app/kanban-data/history/old1",
            "remove /app/kanban-data/history/old2",
        ]
    );
}

#[test]
fn a_failure_ends_the_work_with_its_words() {
    for step in [0, 1, 3, 4, 5, 7, 8, 10, 11, 13, 14] {
        let mut disk = Disk { fail_at: Some(step), ..Disk::default() };
        assert_eq!(disk.save(start("s1")), Err(format!("failure {}", step)));
        assert_eq!(disk.asked.len(), step + 1);
    }
}

#[test]
fn no_file_is_left_half_written() {
    for step in 0..15 {
        let mut disk = Disk::default();
        disk.files.insert(LATEST.to_string(), "old board".to_string());
        disk.files.insert(INDEX.to_string(), "old list".to_string());
        disk.fail_at = Some(step);
        let _ = disk.save(start("s1"));
        assert!(disk.text(LATEST) == Some("old board") || disk.text(LATEST) == Some(BOARD));
        assert!(disk.text(INDEX) == Some("old list") || disk.text(INDEX) == Some("1 entries"));
        let own = disk.text("/app/kanban-data/history/state_s1.json");
        assert!(own.is_none() || own == Some(BOARD));
        assert!(disk.text(LATEST) == Some("old board") || own == Some(BOARD));
    }
}

#[test]
fn a_file_that_cannot_be_removed_is_let_be() {
    let mut disk = Disk::default();
    disk.index = Some((0..50).map(|i| (format!("old{}", i), "".to_string(), 0, 0)).collect());
    disk.files.insert("/app/kanban-data/history/old0".to_string(), "x".to_string());
    disk.fail_at = Some(10);
    let entries = disk.save(start("new")).unwrap();
    assert_eq!(disk.asked[10], "remove /app/kanban-data/history/old0");
    assert_eq!(entries.len(), 50);
    assert_eq!(entries[0].0, "old1");
    assert_eq!(disk.text("/app/kanban-data/history/old0"), Some("x"));
}

#[test]
fn a_new_snapshot_outlives_an_old_one_of_its_name() {
    let mut disk = Disk::default();
    disk.save(start("same")).unwrap();
    for i in 0..49 {
        disk.save(start(&format!("s{}", i))).unwrap();
    }
    let again = save_snapshot(
        "[]".to_string(),
        "same".to_string(),
        "again".to_string(),
        Ok(Some("/app")),
    );
    let entries = disk.save(again).unwrap();
    assert_eq!(entries.len(), 50);
    assert_eq!(entries[0].0, "state_s0.json");
    assert_eq!(entries[49], ("state_same.json".to_string(), "again".to_string(), 0, 0));
    assert_eq!(disk.text("/app/kanban-data/history/state_same.json"), Some("[]"));
    assert_eq!(disk.text(LATEST), Some("[]"));
    assert!(!disk.asked.iter().any(|line| line.starts_with("remove")));
}

#[test]
fn a_file_goes_with_the_last_snapshot_of_its_name() {
    let mut disk = Disk::default();
    disk.save(start("same")).unwrap();
    disk.save(start("same")).unwrap();
    for i in 0..49 {
        disk.save(start(&format!("s{}", i))).unwrap();
    }
    let file = "/app/kanban-data/history/state_same.json";
    let entries = disk.index.clone().unwrap();
    assert_eq!((entries.len(), entries[0].0.as_str()), (50, "state_same.json"));
    assert_eq!(disk.text(file), Some(BOARD));
    let entries = disk.save(start("s49")).unwrap();
    assert_eq!((entries.len(), entries[0].0.as_str()), (50, "state_s0.json"));
    assert_eq!(disk.text(file), None);
}

#[test]
fn every_listed_snapshot_has_its_file_however_often_stamps_repeat() {
    let mut disk = Disk::default();
    for i in 0..200 {
        let entries = disk.save(start(&format!("s{}", i * i % 61))).unwrap();
        assert_eq!(entries.len(), std::cmp::min(i + 1, 50));
        for entry in &entries {
            assert_eq!(disk.text(&format!("/app/kanban-data/history/{}", entry.0)), Some(BOARD));
        }
    }
    let listed: Vec<String> = disk.index.clone().unwrap().into_iter().map(|entry| entry.0).collect();
    for file in disk.files.keys().filter(|file| file.contains("/state_")) {
        assert!(listed.iter().any(|name| file.ends_with(name.as_str())));
    }
}

#[test]
fn the_list_tells_the_newest_in_order() {
    let mut disk = Disk::default();
    assert_eq!(list_history(None).len(), 0);
    for n in 1..=57usize {
        let given = disk.save(start(&format!("s{}", n))).unwrap();
        let loaded = disk.index.as_ref().map(|entries| HistoryIndex {
            snapshots: entries.iter().map(rebuilt).collect(),
        });
        let told: Vec<Entry> = list_history(loaded).iter().map(flat).collect();
        assert_eq!(told, given);
        assert_eq!(told.len(), std::cmp::min(n, 50));
        for (j, entry) in told.iter().enumerate() {
            let k = n - told.len() + j + 1;
            assert_eq!(*entry, (format!("state_s{}.json", k), format!("at s{}", k), 2, 1));
        }
    }
}

#[test]
fn only_files_that_are_needed_no_more_are_given_back() {
    let mut index = HistoryIndex::default();
    for name in ["a", "b", "a"] {
        index.record(rebuilt(&(name.to_string(), String::new(), 0, 0)));
    }
    assert!(index.has_file(&"a".to_string()) && index.has_file(&"b".to_string()));
    assert!(!index.has_file(&"c".to_string()) && !index.has_file(&String::new()));
    for i in 3..50 {
        assert_eq!(index.record(rebuilt(&(format!("f{}", i), String::new(), 0, 0))).len(), 0);
    }
    let mut gone = |name: &str| -> Vec<String> {
        let gone = index.record(rebuilt(&(name.to_string(), String::new(), 0, 0)));
        gone.into_iter().map(|entry| entry.filename).collect()
    };
    assert_eq!(gone("x"), Vec::<String>::new());
    assert_eq!(gone("b"), Vec::<String>::new());
    assert_eq!(gone("y"), vec!["a"]);
}

#[test]
fn a_stamp_that_is_no_plain_name_is_refused_first() {
    for stamp in ["../x", "a/b", "a\\b", "a..b"] {
        let start = save_snapshot::<&str>(
            "not json".to_string(),
            stamp.to_string(),
            String::new(),
            Err("denied".to_string()),
        );
        assert_eq!(error(start), "invalid timestamp");
    }
}

#[test]
fn then_a_board_that_is_not_json_is_refused() {
    let start = save_snapshot::<&str>(
        "".to_string(),
        "s".to_string(),
        String::new(),
        Err("denied".to_string()),
    );
    assert_eq!(error(start), "EOF while parsing a value at line 1 column 0");
}

#[test]
fn then_a_lost_executable_is_refused() {
    let start = |exe_dir: Result<Option<&'static str>, String>| {
        save_snapshot("{}".to_string(), "s".to_string(), String::new(), exe_dir)
    };
    assert_eq!(error(start(Err("denied".to_string()))), "denied");
    assert_eq!(error(start(Ok(None))), "could not resolve executable directory");
}

#[test]
fn a_counted_board_is_saved_with_its_counts() {
    let mut disk = Disk::default();
    let counts = Ok(BoardCounts { columns: 11, cards: 12 });
    let start = save_counted_snapshot(
        "text".to_string(),
        "s".to_string(),
        "iso".to_string(),
        counts,
        Ok(Some("/app")),
    );
    let entries = disk.save(start).unwrap();
    assert_eq!(entries, vec![("state_s.json".to_string(), "iso".to_string(), 11, 12)]);
    let refused = save_counted_snapshot(
        "text".to_string(),
        "s".to_string(),
        "iso".to_string(),
        Err("uncounted".to_string()),
        Ok(Some("/app")),
    );
    assert_eq!(error(refused), "uncounted");
}

#[test]
fn a_stamp_that_ends_in_a_dot_is_saved_but_not_loaded() {
    let mut disk = Disk::default();
    let entries = disk.save(start("x.")).unwrap();
    assert_eq!(entries[0].0, "state_x..json");
    assert!(load_history_entry(&entries[0].0, Ok(Some("/app"))).is_err());
    let entries = disk.save(start(".x")).unwrap();
    assert!(load_history_entry(&entries[1].0, Ok(Some("/app"))).is_ok());
}

#[test]
fn a_replaced_file_is_written_elsewhere_first() {
    let dir = Location::at("/d");
    let file = dir.join("f");
    let write = atomic_write(dir, file, "text".to_string());
    assert!(matches!(write.request(), Request::CreateDirAll { .. }));
    let write = match write.resume(Reply::Done) {
        WriteTurn::Wait(write) => write,
        WriteTurn::End(_) => panic!("ended"),
    };
    assert!(matches!(write.request(), Request::ReadClock));
    let write = match write.resume(Reply::Clock { process: 1, nanos: None }) {
        WriteTurn::Wait(write) => write,
        WriteTurn::End(_) => panic!("ended"),
    };
    match write.request() {
        Request::WriteText { file, text } => {
            assert_eq!(name(&file), "/d/.tmp_1_0");
            assert_eq!(text, "text");
        }
        _ => panic!("something else"),
    }
    match write.resume(Reply::Failed("full".to_string())) {
        WriteTurn::End(Err(words)) => assert_eq!(words, "full"),
        _ => panic!("went on"),
    }
}

#[test]
fn names_of_files() {
    assert_eq!(temp_name(4321, Some(1_700_000_000_123_456_789)), ".tmp_4321_1700000000123456789");
    assert_eq!(temp_name(0, None), ".tmp_0_0");
    assert_eq!(snapshot_name("2024-05-06"), "state_2024-05-06.json");
}

#[test]
fn a_reply_fits_its_request() {
    let dir = Location::at("/d");
    let request = Request::CreateDirAll { dir };
    assert!(fits(&request, &Reply::Done));
    assert!(fits(&request, &Reply::Failed(String::new())));
    assert!(!fits(&request, &Reply::Index(None)));
    let clock: Request<&str> = Request::ReadClock;
    assert!(fits(&clock, &Reply::Clock { process: 0, nanos: None }));
    assert!(!fits(&clock, &Reply::Failed(String::new())));
    assert!(!fits(&Request::<&str>::EncodeIndex { index: HistoryIndex::default() }, &Reply::Done));
}

#[test]
fn a_list_that_cannot_be_read_is_empty() {
    assert_eq!(read_index(None).snapshots.len(), 0);
    assert_eq!(list_history(None).len(), 0);
    let index = HistoryIndex { snapshots: vec![HistoryEntry::default()] };
    let entries = list_history(Some(index));
    assert_eq!(flat(&entries[0]), (String::new(), String::new(), 0, 0));
}

#[test]
fn a_copy_of_the_list_says_the_same() {
    let mut index = HistoryIndex::default();
    for i in 0..3 {
        let gone = index.record(rebuilt(&(format!("f{}", i), "t".to_string(), i, 2 * i)));
        assert_eq!(gone.len(), 0);
    }
    let same: Vec<Entry> = index.duplicate().snapshots.iter().map(flat).collect();
    assert_eq!(same, index.snapshots.iter().map(flat).collect::<Vec<Entry>>());
    assert_eq!(same[2], ("f2".to_string(), "t".to_string(), 2, 4));
}
