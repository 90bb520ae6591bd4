use std::cell::RefCell;

use modelscope::observer::{notify_all, percent_of, ProgressCallback};
use modelscope::registry::{append_known_dir, parse_registry, render_registry};
use modelscope::transfer::run_transfer;
use modelscope::{EntryKind, ManifestEntry, TransferError};

#[test]
fn registry_text_parses_into_lines() {
    let lines = parse_registry(&"/data/models\n/home/u/models".to_string());
    assert_eq!(lines, vec!["/data/models".to_string(), "/home/u/models".to_string()]);
}

#[test]
fn registry_parse_keeps_empty_segments() {
    let lines = parse_registry(&"a\n\nb\n".to_string());
    assert_eq!(
        lines,
        vec!["a".to_string(), "".to_string(), "b".to_string(), "".to_string()]
    );
    assert_eq!(parse_registry(&"".to_string()), vec!["".to_string()]);
}

#[test]
fn registry_append_is_a_set() {
    let mut dirs = vec!["/a".to_string(), "/b".to_string()];
    append_known_dir(&mut dirs, "/b".to_string());
    assert_eq!(dirs, vec!["/a".to_string(), "/b".to_string()]);
    append_known_dir(&mut dirs, "/c".to_string());
    assert_eq!(dirs, vec!["/a".to_string(), "/b".to_string(), "/c".to_string()]);
}

#[test]
fn registry_renders_nonempty_lines() {
    let dirs = vec!["/a".to_string(), "".to_string(), "/b".to_string()];
    assert_eq!(render_registry(&dirs), "/a\n/b");
    assert_eq!(render_registry(&Vec::new()), "");
    assert_eq!(render_registry(&vec!["/only".to_string()]), "/only");
}

#[test]
fn registry_round_trip() {
    let dirs = vec!["/data/models".to_string(), "/srv/models".to_string()];
    let text = render_registry(&dirs);
    assert_eq!(parse_registry(&text), dirs);
}

#[test]
fn percent_is_the_whole_share() {
    assert_eq!(percent_of(0, 512), 0);
    assert_eq!(percent_of(256, 512), 50);
    assert_eq!(percent_of(512, 512), 100);
    assert_eq!(percent_of(1, 3), 33);
    // Unknown total reports zero rather than dividing by it.
    assert_eq!(percent_of(10, 0), 0);
    // More on disk than expected never wraps around.
    assert_eq!(percent_of(u64::MAX, 1), u32::MAX);
}

struct Recorder {
    calls: RefCell<Vec<String>>,
}

impl ProgressCallback for Recorder {
    fn on_file_start(&self, file_name: &str, file_size: u64) {
        self.calls.borrow_mut().push(format!("start {} {}", file_name, file_size));
    }

    fn on_file_progress(&self, file_name: &str, downloaded: u64, total: u64) {
        self.calls.borrow_mut().push(format!("progress {} {} {}", file_name, downloaded, total));
    }

    fn on_file_complete(&self, file_name: &str) {
        self.calls.borrow_mut().push(format!("complete {}", file_name));
    }

    fn on_file_error(&self, file_name: &str, error: &str) {
        self.calls.borrow_mut().push(format!("error {} {}", file_name, error));
    }
}

#[test]
fn observer_sees_the_lifecycle_in_order() {
    let e = ManifestEntry {
        name: "w.bin".to_string(),
        relative_path: "w.bin".to_string(),
        expected_size: 4,
        kind: EntryKind::Blob,
    };
    let out = run_transfer(&e, Vec::new(), 200, &vec![vec![1, 2], vec![3, 4]]);
    let rec = Recorder { calls: RefCell::new(Vec::new()) };
    notify_all(&rec, "w.bin", &out.events);
    assert_eq!(
        rec.calls.into_inner(),
        vec![
            "start w.bin 4".to_string(),
            "progress w.bin 2 4".to_string(),
            "progress w.bin 4 4".to_string(),
            "complete w.bin".to_string(),
        ]
    );
}

#[test]
fn printing_observer_accepts_a_whole_lifecycle() {
    // The line-printing observer runs through a full event stream
    // without panicking, failure description included.
    let e = ManifestEntry {
        name: "p.bin".to_string(),
        relative_path: "p.bin".to_string(),
        expected_size: 2,
        kind: EntryKind::Blob,
    };
    let ok = run_transfer(&e, Vec::new(), 200, &vec![vec![1, 2]]);
    notify_all(&modelscope::SimpleCallback, "p.bin", &ok.events);
    let failed = run_transfer(&e, Vec::new(), 500, &Vec::new());
    notify_all(&modelscope::SimpleCallback, "p.bin", &failed.events);
}

#[test]
fn observer_hears_the_failure_description() {
    let e = ManifestEntry {
        name: "w.bin".to_string(),
        relative_path: "w.bin".to_string(),
        expected_size: 4,
        kind: EntryKind::Blob,
    };
    let out = run_transfer(&e, Vec::new(), 503, &Vec::new());
    assert_eq!(out.result, Err(TransferError::Http { status: 503 }));
    let rec = Recorder { calls: RefCell::new(Vec::new()) };
    notify_all(&rec, "w.bin", &out.events);
    assert_eq!(
        rec.calls.into_inner(),
        vec!["start w.bin 4".to_string(), "error w.bin HTTP 503".to_string()]
    );
}
