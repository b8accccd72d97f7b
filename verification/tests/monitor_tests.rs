use integrity_core::anomaly::{AnomalyKind, AnomalyRecord};
use integrity_core::differ::{compare_filesystems, find_entry};
use integrity_core::inspect::{
    check_attributes, check_digest, stat_of, verify_entry, verify_file, AttributeCheck, LiveFile,
};
use integrity_core::model::{Baseline, FileIntegrityEntry, IntegrityError};
use integrity_core::monitor::{
    EventType, FanotifyMonitor, FileEvent, MockMonitor, EVENT_QUEUE_CAPACITY,
};
use integrity_core::scanner::FileStat;
use integrity_core::store::{
    baseline_url, baselines_url, fetch_baseline, upload_baseline, StoreReply, NOT_FOUND,
};
use integrity_core::supervisor::{
    run_monitor_mode, Observation, SupervisorState, MAX_CONSECUTIVE_ANOMALIES,
};

fn entry(path: &str, sha512: &str, mode: u32, uid: u32, gid: u32) -> FileIntegrityEntry {
    FileIntegrityEntry { path: path.to_string(), sha512: sha512.to_string(), mode, uid, gid }
}

fn baseline() -> Baseline {
    Baseline {
        image_id: "img".to_string(),
        timestamp: "2023-01-01T00:00:00Z".to_string(),
        entries: vec![
            entry("etc/passwd", "aa", 0o644, 0, 0),
            entry("bin/ls", "bb", 0o755, 0, 0),
            entry("usr/bin/python3", "cc", 0o755, 0, 0),
        ],
    }
}

fn reports(mut found: Vec<AnomalyRecord>) -> Vec<String> {
    let mut out: Vec<String> = Vec::new();
    while let Some(a) = found.pop() {
        out.push(a.to_string());
    }
    out.sort();
    out
}

fn present(mode: u32, uid: u32, gid: u32, digest: &str) -> LiveFile {
    LiveFile::Present { stat: FileStat { mode, uid, gid }, digest: Ok(digest.to_string()) }
}

fn clean(path: &str, mode: u32, digest: &str) -> Observation {
    Observation {
        event: FileEvent { path: path.to_string(), event_type: EventType::Modified },
        live: present(mode, 0, 0, digest),
    }
}

fn tampered(path: &str) -> Observation {
    Observation {
        event: FileEvent { path: path.to_string(), event_type: EventType::Modified },
        live: present(0o777, 0, 0, "zz"),
    }
}

#[test]
fn find_entry_takes_the_last_of_a_path() {
    let entries = vec![entry("a", "1", 0, 0, 0), entry("b", "2", 0, 0, 0), entry("a", "3", 0, 0, 0)];
    assert_eq!(find_entry(&entries, &"a".to_string()), Some(2));
    assert_eq!(find_entry(&entries, &"b".to_string()), Some(1));
    assert_eq!(find_entry(&entries, &"c".to_string()), None);
}

#[test]
fn diff_of_matching_state_is_empty() {
    let b = baseline();
    let current = b.entries.clone();
    assert!(compare_filesystems(&b, &current).is_empty());
}

#[test]
fn diff_of_changed_content_is_one_modified() {
    let b = baseline();
    let mut current = b.entries.clone();
    current[1].sha512 = "ff".to_string();
    assert_eq!(
        reports(compare_filesystems(&b, &current)),
        vec!["MODIFIED: bin/ls (hash mismatch: bb != ff)"]
    );
}

#[test]
fn diff_of_removed_file_is_one_deleted() {
    let b = baseline();
    let mut current = b.entries.clone();
    current.remove(0);
    let found = compare_filesystems(&b, &current);
    assert_eq!(found.len(), 1);
    assert_eq!(found[0], AnomalyRecord::plain(AnomalyKind::Deleted, &"etc/passwd".to_string()));
}

#[test]
fn diff_of_added_file_is_one_added() {
    let b = baseline();
    let mut current = b.entries.clone();
    current.push(entry("etc/backdoor", "dd", 0o755, 0, 0));
    let found = compare_filesystems(&b, &current);
    assert_eq!(found.len(), 1);
    assert_eq!(found[0], AnomalyRecord::plain(AnomalyKind::Added, &"etc/backdoor".to_string()));
}

#[test]
fn diff_reports_every_attribute_that_differs() {
    let b = baseline();
    let mut current = b.entries.clone();
    current[0] = entry("etc/passwd", "zz", 0o666, 7, 8);
    assert_eq!(
        reports(compare_filesystems(&b, &current)),
        vec![
            "GID_CHANGED: etc/passwd (0 != 8)",
            "MODIFIED: etc/passwd (hash mismatch: aa != zz)",
            "PERMISSION_CHANGED: etc/passwd (644 != 666)",
            "UID_CHANGED: etc/passwd (0 != 7)",
        ]
    );
}

#[test]
fn diff_reads_duplicate_paths_as_last_wins() {
    let mut b = baseline();
    b.entries.push(entry("etc/passwd", "a2", 0o644, 0, 0));
    let current = vec![
        entry("etc/passwd", "a2", 0o644, 0, 0),
        entry("bin/ls", "bb", 0o755, 0, 0),
        entry("usr/bin/python3", "cc", 0o755, 0, 0),
        entry("new", "n1", 0o600, 0, 0),
        entry("new", "n2", 0o600, 0, 0),
    ];
    assert_eq!(reports(compare_filesystems(&b, &current)), vec!["ADDED: new"]);
}

#[test]
fn single_check_stops_at_the_first_mismatch_where_the_diff_does_not() {
    let b = baseline();
    let live = present(0o100777, 0, 0, "zz");
    let found = verify_file("/etc/passwd", &b.entries, &live);
    assert_eq!(
        found,
        Some(AnomalyRecord::of_number(
            AnomalyKind::PermissionChanged,
            &"etc/passwd".to_string(),
            0o644,
            0o777
        ))
    );
    let mut current = b.entries.clone();
    current[0] = entry("etc/passwd", "zz", 0o777, 0, 0);
    assert_eq!(
        reports(compare_filesystems(&b, &current)),
        vec![
            "MODIFIED: etc/passwd (hash mismatch: aa != zz)",
            "PERMISSION_CHANGED: etc/passwd (644 != 777)",
        ]
    );
}

#[test]
fn single_check_in_its_fixed_order() {
    let b = baseline().entries;
    let p = "etc/passwd".to_string();
    assert_eq!(verify_entry(&p, &b, &present(0o100644, 0, 0, "aa")), None);
    assert_eq!(
        verify_entry(&"etc/other".to_string(), &b, &present(0o644, 0, 0, "aa")),
        Some(AnomalyRecord::plain(AnomalyKind::Added, &"etc/other".to_string()))
    );
    assert_eq!(
        verify_entry(&p, &b, &LiveFile::Missing { reason: "no such file".to_string() }),
        Some(AnomalyRecord::with_reason(AnomalyKind::Deleted, &p, &"no such file".to_string()))
    );
    assert_eq!(
        verify_entry(&p, &b, &present(0o644, 5, 6, "zz")),
        Some(AnomalyRecord::of_number(AnomalyKind::UidChanged, &p, 0, 5))
    );
    assert_eq!(
        verify_entry(&p, &b, &present(0o644, 0, 6, "zz")),
        Some(AnomalyRecord::of_number(AnomalyKind::GidChanged, &p, 0, 6))
    );
    assert_eq!(
        verify_entry(&p, &b, &present(0o644, 0, 0, "zz")),
        Some(AnomalyRecord::of_text(AnomalyKind::Modified, &p, &"aa".to_string(), &"zz".to_string()))
    );
    let unreadable = LiveFile::Present {
        stat: FileStat { mode: 0o644, uid: 0, gid: 0 },
        digest: Err("denied".to_string()),
    };
    assert_eq!(
        verify_entry(&p, &b, &unreadable),
        Some(AnomalyRecord::with_reason(AnomalyKind::HashError, &p, &"denied".to_string()))
    );
}

#[test]
fn stat_of_an_observation() {
    assert_eq!(stat_of(&present(0o644, 1, 2, "aa")), Ok(FileStat { mode: 0o644, uid: 1, gid: 2 }));
    assert_eq!(
        stat_of(&LiveFile::Missing { reason: "gone".to_string() }),
        Err("gone".to_string())
    );
}

#[test]
fn single_check_in_two_steps() {
    let b = baseline().entries;
    let p = "bin/ls".to_string();
    let ok = Ok(FileStat { mode: 0o100755, uid: 0, gid: 0 });
    assert_eq!(check_attributes(&p, &b, &ok), AttributeCheck::NeedsDigest(1));
    assert_eq!(check_digest(&b[1], &p, &Ok("bb".to_string())), None);
    assert_eq!(
        check_digest(&b[1], &p, &Ok("b0".to_string())),
        Some(AnomalyRecord::of_text(AnomalyKind::Modified, &p, &"bb".to_string(), &"b0".to_string()))
    );
    assert_eq!(
        check_digest(&b[1], &p, &Err("denied".to_string())),
        Some(AnomalyRecord::with_reason(AnomalyKind::HashError, &p, &"denied".to_string()))
    );
    assert_eq!(
        check_attributes(&p, &b, &Err("gone".to_string())),
        AttributeCheck::Anomaly(AnomalyRecord::with_reason(AnomalyKind::Deleted, &p, &"gone".to_string()))
    );
    assert_eq!(
        check_attributes(&p, &b, &Ok(FileStat { mode: 0o700, uid: 0, gid: 0 })),
        AttributeCheck::Anomaly(AnomalyRecord::of_number(AnomalyKind::PermissionChanged, &p, 0o755, 0o700))
    );
    assert_eq!(
        check_attributes(&"x".to_string(), &b, &ok),
        AttributeCheck::Anomaly(AnomalyRecord::plain(AnomalyKind::Added, &"x".to_string()))
    );
}

#[test]
fn supervisor_counts_and_resets() {
    assert_eq!(MAX_CONSECUTIVE_ANOMALIES, 5);
    let mut s = SupervisorState::new();
    assert_eq!(s, SupervisorState::Idle(0));
    for n in 1..5 {
        s = s.step(true);
        assert_eq!(s, SupervisorState::Idle(n));
    }
    assert_eq!(s.step(false), SupervisorState::Idle(0));
    s = s.step(true);
    assert_eq!(s, SupervisorState::FailClosed);
    assert!(s.is_fail_closed());
    assert_eq!(s.step(false), SupervisorState::FailClosed);
    assert_eq!(s.step(true), SupervisorState::FailClosed);
}

#[test]
fn five_anomalies_in_a_row_fail_closed() {
    let b = baseline();
    let mut events: Vec<Observation> = Vec::new();
    for _ in 0..5 {
        events.push(tampered("/etc/passwd"));
    }
    events.push(clean("/bin/ls", 0o755, "bb"));
    let report = run_monitor_mode(&b, &events);
    assert_eq!(report.state, SupervisorState::FailClosed);
    assert_eq!(report.processed, 5);
    assert_eq!(report.anomalies.len(), 5);
    assert_eq!(report.anomalies[0].kind, AnomalyKind::PermissionChanged);
}

#[test]
fn a_clean_event_resets_the_count() {
    let b = baseline();
    let mut events: Vec<Observation> = Vec::new();
    for _ in 0..4 {
        events.push(tampered("/etc/passwd"));
    }
    events.push(clean("/bin/ls", 0o755, "bb"));
    for _ in 0..4 {
        events.push(tampered("/usr/bin/python3"));
    }
    let report = run_monitor_mode(&b, &events);
    assert_eq!(report.state, SupervisorState::Idle(4));
    assert_eq!(report.processed, 9);
    assert_eq!(report.anomalies.len(), 8);
}

#[test]
fn an_empty_stream_ends_the_run_at_once() {
    let report = run_monitor_mode(&baseline(), &Vec::new());
    assert_eq!(report.state, SupervisorState::Idle(0));
    assert_eq!(report.processed, 0);
    assert!(report.anomalies.is_empty());
}

#[test]
fn synthetic_source_walks_its_rotation() {
    let m = MockMonitor::new(5);
    assert_eq!(m.interval_secs(), 5);
    let paths = ["/etc/passwd", "/bin/ls", "/usr/bin/python3", "/etc/passwd", "/bin/ls"];
    for (n, p) in paths.iter().enumerate() {
        let e = m.event_at(n);
        assert_eq!(e.path, *p);
        assert_eq!(e.event_type, EventType::Modified);
        assert_eq!(e.clone(), e);
    }
    assert_eq!(EVENT_QUEUE_CAPACITY, 100);
}

#[test]
fn native_source_falls_back_with_a_warning() {
    let m = FanotifyMonitor::new(vec!["/bin".to_string(), "/etc".to_string()]);
    assert_eq!(m.watch_paths(), &vec!["/bin".to_string(), "/etc".to_string()]);
    assert_eq!(m.fallback().interval_secs(), 10);
    assert!(m.fallback_warning().contains("Falling back"));
    assert!(FanotifyMonitor::construction_warning().contains("no native backend"));
}

#[test]
fn store_urls() {
    assert_eq!(baselines_url("http://localhost:8080"), "http://localhost:8080/baselines");
    assert_eq!(
        baseline_url("http://localhost:8080", "ubuntu-2204"),
        "http://localhost:8080/baselines/ubuntu-2204"
    );
}

#[test]
fn store_replies_to_a_fetch() {
    assert_eq!(fetch_baseline(StoreReply::Success(Ok(baseline()))), Ok(baseline()));
    assert_eq!(
        fetch_baseline(StoreReply::Success(Err("bad json".to_string()))),
        Err(IntegrityError::Serde("bad json".to_string()))
    );
    assert_eq!(
        fetch_baseline(StoreReply::Unreachable("refused".to_string())),
        Err(IntegrityError::Storage("refused".to_string()))
    );
    assert_eq!(
        fetch_baseline(StoreReply::Failure { status: 404, text: Some("no such image".to_string()) }),
        Err(IntegrityError::BaselineNotFound("Fetch failed: no such image".to_string()))
    );
    assert_eq!(
        fetch_baseline(StoreReply::Failure { status: NOT_FOUND, text: None }),
        Err(IntegrityError::BaselineNotFound("Fetch failed: Unknown error".to_string()))
    );
    assert_eq!(
        fetch_baseline(StoreReply::Failure { status: 500, text: Some("disk error".to_string()) }),
        Err(IntegrityError::Storage("Fetch failed: disk error".to_string()))
    );
    assert_eq!(
        fetch_baseline(StoreReply::Failure { status: 403, text: None }),
        Err(IntegrityError::Storage("Fetch failed: Unknown error".to_string()))
    );
}

#[test]
fn store_replies_to_an_upload() {
    assert_eq!(upload_baseline(StoreReply::Success(Ok(()))), Ok(()));
    assert_eq!(
        upload_baseline(StoreReply::Unreachable("refused".to_string())),
        Err(IntegrityError::Storage("refused".to_string()))
    );
    assert_eq!(
        upload_baseline(StoreReply::Failure { status: 500, text: Some("disk full".to_string()) }),
        Err(IntegrityError::Storage("Upload failed: disk full".to_string()))
    );
    assert_eq!(
        upload_baseline(StoreReply::Failure { status: 404, text: None }),
        Err(IntegrityError::Storage("Upload failed: Unknown error".to_string()))
    );
}
