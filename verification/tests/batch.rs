use modelscope::manifest::{accept_listing, check_listing_status, filter_blobs, resolve_single};
use modelscope::scheduler::run_all;
use modelscope::{DownloadError, EntryKind, FileJob, ManifestEntry, ModelScope, TransferError, TransferEvent};

fn entry(name: &str, path: &str, size: u64, kind: EntryKind) -> ManifestEntry {
    ManifestEntry {
        name: name.to_string(),
        relative_path: path.to_string(),
        expected_size: size,
        kind,
    }
}

fn blob_job(name: &str, size: u64, status: u16, body: Vec<u8>) -> FileJob {
    FileJob {
        entry: entry(name, name, size, EntryKind::Blob),
        local: Vec::new(),
        status,
        chunks: vec![body],
    }
}

#[test]
fn one_failing_file_does_not_disturb_its_siblings() {
    // Three files; the middle one answers 500. The others complete with
    // their full contents, and the aggregate failure names the offender.
    let jobs = vec![
        blob_job("a.bin", 3, 200, vec![1, 2, 3]),
        blob_job("b.bin", 4, 500, Vec::new()),
        blob_job("c.bin", 2, 200, vec![8, 9]),
    ];
    let (outcomes, verdict) = run_all(jobs);
    assert_eq!(outcomes.len(), 3);
    assert!(outcomes[0].result.is_ok());
    assert_eq!(outcomes[0].file, vec![1, 2, 3]);
    assert!(outcomes[1].result.is_err());
    assert!(outcomes[2].result.is_ok());
    assert_eq!(outcomes[2].file, vec![8, 9]);
    match verdict {
        Err(DownloadError::Transfer { name, error }) => {
            assert_eq!(name, "b.bin");
            assert_eq!(error, TransferError::Http { status: 500 });
        }
        other => panic!("expected a transfer failure naming b.bin, got {:?}", other),
    }
}

#[test]
fn all_successful_batch_aggregates_to_ok() {
    let jobs = vec![
        blob_job("a.bin", 1, 200, vec![1]),
        blob_job("b.bin", 2, 200, vec![1, 2]),
    ];
    let (outcomes, verdict) = run_all(jobs);
    assert!(verdict.is_ok());
    assert_eq!(outcomes.len(), 2);
    assert!(outcomes.iter().all(|o| o.result.is_ok()));
}

#[test]
fn empty_batch_is_a_success() {
    let (outcomes, verdict) = run_all(Vec::new());
    assert!(outcomes.is_empty());
    assert!(verdict.is_ok());
}

#[test]
fn batch_reports_each_file_independently() {
    // Every failing file still gets its own Error event; the aggregate
    // names the first offender.
    let jobs = vec![
        blob_job("x.bin", 5, 404, Vec::new()),
        blob_job("y.bin", 5, 503, Vec::new()),
    ];
    let (outcomes, verdict) = run_all(jobs);
    assert_eq!(
        outcomes[0].events.last(),
        Some(&TransferEvent::Error { error: TransferError::Http { status: 404 } })
    );
    assert_eq!(
        outcomes[1].events.last(),
        Some(&TransferEvent::Error { error: TransferError::Http { status: 503 } })
    );
    match verdict {
        Err(DownloadError::Transfer { name, .. }) => assert_eq!(name, "x.bin"),
        other => panic!("expected a transfer failure, got {:?}", other),
    }
}

#[test]
fn filter_keeps_only_blobs_in_order() {
    let entries = vec![
        entry("dir", "sub", 0, EntryKind::Tree),
        entry("a", "sub/a.bin", 10, EntryKind::Blob),
        entry("dir2", "sub2", 0, EntryKind::Tree),
        entry("b", "b.bin", 20, EntryKind::Blob),
    ];
    let blobs = filter_blobs(entries);
    assert_eq!(blobs.len(), 2);
    assert_eq!(blobs[0].name, "a");
    assert_eq!(blobs[1].name, "b");
}

#[test]
fn single_file_resolution() {
    let entries = vec![
        entry("dir", "weights", 0, EntryKind::Tree),
        entry("w", "weights/model.bin", 10, EntryKind::Blob),
    ];
    let found = resolve_single(&entries, &"weights/model.bin".to_string());
    assert_eq!(found.unwrap().name, "w");
}

#[test]
fn single_file_not_found() {
    let entries = vec![entry("w", "model.bin", 10, EntryKind::Blob)];
    match resolve_single(&entries, &"missing.bin".to_string()) {
        Err(DownloadError::FileNotFound { path }) => assert_eq!(path, "missing.bin"),
        other => panic!("expected FileNotFound, got {:?}", other),
    }
}

#[test]
fn single_file_match_is_case_sensitive_and_blob_only() {
    let entries = vec![
        entry("d", "Model.bin", 10, EntryKind::Blob),
        entry("t", "tree.bin", 0, EntryKind::Tree),
    ];
    assert!(resolve_single(&entries, &"model.bin".to_string()).is_err());
    assert!(resolve_single(&entries, &"tree.bin".to_string()).is_err());
    assert!(resolve_single(&entries, &"Model.bin".to_string()).is_ok());
}

#[test]
fn listing_acceptance_follows_the_success_flag() {
    let files = vec![entry("a", "a.bin", 1, EntryKind::Blob)];
    let accepted = accept_listing(true, "ok".to_string(), files);
    assert_eq!(accepted.unwrap().len(), 1);

    let rejected = accept_listing(false, "no such model".to_string(), Vec::new());
    match rejected {
        Err(DownloadError::ManifestRejected { message }) => assert_eq!(message, "no such model"),
        other => panic!("expected ManifestRejected, got {:?}", other),
    }
}

#[test]
fn listing_fetch_status_is_all_or_nothing() {
    assert!(check_listing_status(200).is_ok());
    assert!(check_listing_status(204).is_ok());
    match check_listing_status(401) {
        Err(DownloadError::ManifestUnavailable { status }) => assert_eq!(status, 401),
        other => panic!("expected ManifestUnavailable, got {:?}", other),
    }
}

#[test]
fn endpoint_urls() {
    let id = "org/model".to_string();
    assert_eq!(
        ModelScope::files_url(&id),
        "https://modelscope.cn/api/v1/models/org/model/repo/files?Recursive=true"
    );
    assert_eq!(
        ModelScope::download_url(&id, &"sub/w.bin".to_string()),
        "https://modelscope.cn/models/org/model/resolve/master/sub/w.bin"
    );
    assert_eq!(
        ModelScope::model_id_of(&"org".to_string(), &"model".to_string()),
        "org/model"
    );
}

#[test]
fn cookie_header_joins_pairs() {
    assert_eq!(ModelScope::cookie_header(&Vec::new()), "");
    assert_eq!(
        ModelScope::cookie_header(&vec![("s".to_string(), "1".to_string())]),
        "s=1"
    );
    assert_eq!(
        ModelScope::cookie_header(&vec![
            ("a".to_string(), "1".to_string()),
            ("b".to_string(), "2".to_string()),
        ]),
        "a=1; b=2"
    );
}

#[test]
fn error_descriptions() {
    assert_eq!(TransferError::Http { status: 500 }.describe(), "HTTP 500");
    assert_eq!(TransferError::Http { status: 404 }.describe(), "HTTP 404");
    assert_eq!(TransferError::Io.describe(), "local I/O error");
    assert_eq!(TransferError::Network.describe(), "network stream interrupted");
}
