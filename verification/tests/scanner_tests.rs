use integrity_core::digest::encode_digest;
use integrity_core::model::{FileIntegrityEntry, IntegrityError};
use integrity_core::scanner::{
    default_exclusions, make_baseline, relative_path, scan_baseline, scan_filesystem,
    should_exclude, under_exclusion, FileKind, FileStat, WalkItem,
};

fn dir(path: &str, depth: usize) -> WalkItem {
    WalkItem::Entry { path: path.to_string(), depth, kind: FileKind::Directory, stat: None, digest: None }
}

fn raw(fill: u8) -> Vec<u8> {
    vec![fill; 64]
}

fn file(path: &str, depth: usize, fill: u8) -> WalkItem {
    WalkItem::Entry {
        path: path.to_string(),
        depth,
        kind: FileKind::Regular,
        stat: Some(FileStat { mode: 0o100644, uid: 1, gid: 2 }),
        digest: Some(raw(fill)),
    }
}

fn special(path: &str, depth: usize, kind: FileKind) -> WalkItem {
    WalkItem::Entry {
        path: path.to_string(),
        depth,
        kind,
        stat: Some(FileStat { mode: 0o644, uid: 0, gid: 0 }),
        digest: Some(raw(0)),
    }
}

fn recorded(path: &str, fill: u8) -> FileIntegrityEntry {
    FileIntegrityEntry {
        path: path.to_string(),
        sha512: encode_digest(&raw(fill)),
        mode: 0o644,
        uid: 1,
        gid: 2,
    }
}

#[test]
fn default_exclusions_are_the_seven() {
    assert_eq!(
        default_exclusions(),
        vec!["/proc", "/sys", "/dev", "/run", "/tmp", "/var/tmp", "/var/log"]
    );
}

#[test]
fn exclusion_is_by_prefix_and_kind() {
    let ex = default_exclusions();
    assert!(should_exclude("/proc", FileKind::Directory, &ex));
    assert!(should_exclude("/proc/1", FileKind::Directory, &ex));
    assert!(should_exclude("/tmpfoo", FileKind::Directory, &ex));
    assert!(!should_exclude("/etc", FileKind::Directory, &ex));
    assert!(!should_exclude("/", FileKind::Directory, &ex));
    assert!(!should_exclude("/proc/cpuinfo", FileKind::Regular, &ex));
    assert!(should_exclude("/etc/link", FileKind::Symlink, &ex));
    assert!(should_exclude("/etc/sock", FileKind::Socket, &ex));
    assert!(should_exclude("/etc/pipe", FileKind::Fifo, &ex));
    assert!(should_exclude("/etc/sda", FileKind::BlockDevice, &ex));
    assert!(should_exclude("/etc/tty", FileKind::CharDevice, &ex));
    assert!(under_exclusion("/var/log/syslog", &ex));
    assert!(!under_exclusion("/var/lib", &ex));
    assert!(!under_exclusion("/proc", &Vec::new()));
}

#[test]
fn only_files_and_links_are_read() {
    assert!(FileKind::Regular.needs_reading());
    assert!(!FileKind::Symlink.needs_reading());
    assert!(!FileKind::Directory.needs_reading());
    assert!(!FileKind::BlockDevice.needs_reading());
    assert!(!FileKind::CharDevice.needs_reading());
    assert!(!FileKind::Fifo.needs_reading());
    assert!(!FileKind::Socket.needs_reading());
}

#[test]
fn relative_paths() {
    assert_eq!(relative_path("/etc/passwd", "/"), "etc/passwd");
    assert_eq!(relative_path("/srv/img/etc/passwd", "/srv/img"), "etc/passwd");
    assert_eq!(relative_path("/srv/img", "/srv/img"), "");
    assert_eq!(relative_path("/etc/passwd", "/srv"), "/etc/passwd");
    assert_eq!(relative_path("etc/passwd", "/"), "etc/passwd");
}

#[test]
fn scan_emits_regular_files_in_walk_order() {
    let walk = vec![
        dir("/", 0),
        dir("/etc", 1),
        file("/etc/passwd", 2, 0xaa),
        file("/etc/shadow", 2, 0xbb),
        file("/vmlinuz", 1, 0xcc),
    ];
    let got = scan_filesystem("/", &walk, &default_exclusions());
    assert_eq!(
        got,
        Ok(vec![recorded("etc/passwd", 0xaa), recorded("etc/shadow", 0xbb), recorded("vmlinuz", 0xcc)])
    );
}

#[test]
fn scan_masks_the_mode_to_twelve_bits() {
    let walk = vec![WalkItem::Entry {
        path: "/bin/su".to_string(),
        depth: 1,
        kind: FileKind::Regular,
        stat: Some(FileStat { mode: 0o104755, uid: 0, gid: 0 }),
        digest: Some(raw(0xaa)),
    }];
    let got = scan_filesystem("/", &walk, &default_exclusions()).unwrap();
    assert_eq!(got.len(), 1);
    assert_eq!(got[0].mode, 0o4755);
}

#[test]
fn scan_leaves_out_excluded_subtrees() {
    let walk = vec![
        dir("/", 0),
        dir("/proc", 1),
        file("/proc/cpuinfo", 2, 0xaa),
        dir("/proc/1", 2),
        file("/proc/1/status", 3, 0xbb),
        dir("/tmp", 1),
        file("/tmp/x", 2, 0xcc),
        dir("/usr", 1),
        file("/usr/a", 2, 0xdd),
    ];
    let got = scan_filesystem("/", &walk, &default_exclusions());
    assert_eq!(got, Ok(vec![recorded("usr/a", 0xdd)]));
}

#[test]
fn scan_resumes_after_nested_excluded_directories() {
    let ex = vec!["/data/skip".to_string()];
    let walk = vec![
        dir("/data", 0),
        dir("/data/skip", 1),
        dir("/data/skip/skip-too", 2),
        file("/data/skip/skip-too/a", 3, 0xaa),
        file("/data/skip/b", 2, 0xbb),
        file("/data/c", 1, 0xcc),
    ];
    let got = scan_filesystem("/data", &walk, &ex);
    assert_eq!(got, Ok(vec![recorded("c", 0xcc)]));
}

#[test]
fn scan_keeps_a_file_whose_own_name_matches_a_prefix() {
    let walk = vec![dir("/", 0), file("/tmpfile", 1, 0xaa)];
    let got = scan_filesystem("/", &walk, &default_exclusions());
    assert_eq!(got, Ok(vec![recorded("tmpfile", 0xaa)]));
}

#[test]
fn scan_never_emits_special_files() {
    let walk = vec![
        dir("/", 0),
        special("/a.sock", 1, FileKind::Socket),
        special("/a.fifo", 1, FileKind::Fifo),
        special("/sda", 1, FileKind::BlockDevice),
        special("/tty", 1, FileKind::CharDevice),
        file("/kept", 1, 0xaa),
    ];
    let got = scan_filesystem("/", &walk, &default_exclusions());
    assert_eq!(got, Ok(vec![recorded("kept", 0xaa)]));
}

#[test]
fn scan_never_records_a_link() {
    let walk = vec![dir("/", 0), special("/link", 1, FileKind::Symlink), file("/kept", 1, 0xaa)];
    let got = scan_filesystem("/", &walk, &default_exclusions());
    assert_eq!(got, Ok(vec![recorded("kept", 0xaa)]));
}

#[test]
fn scan_records_each_path_once_and_keeps_the_last() {
    let walk = vec![
        file("/a", 1, 0x01),
        file("/b", 1, 0x02),
        file("/a", 1, 0x03),
        file("/c", 1, 0x04),
        file("/b", 1, 0x05),
    ];
    let got = scan_filesystem("/", &walk, &default_exclusions());
    assert_eq!(got, Ok(vec![recorded("a", 0x03), recorded("c", 0x04), recorded("b", 0x05)]));
}

#[test]
fn scan_records_digests_as_128_lowercase_hex_digits() {
    let walk = vec![file("/a", 1, 0xAB)];
    let got = scan_filesystem("/", &walk, &default_exclusions()).unwrap();
    assert_eq!(got[0].sha512, "ab".repeat(64));
    assert_eq!(got[0].sha512.len(), 128);
}

#[test]
fn scan_skips_a_digest_that_is_not_full_length() {
    let walk = vec![
        WalkItem::Entry {
            path: "/short".to_string(),
            depth: 1,
            kind: FileKind::Regular,
            stat: Some(FileStat { mode: 0o644, uid: 1, gid: 2 }),
            digest: Some(vec![1, 2, 3]),
        },
        file("/kept", 1, 0xaa),
    ];
    let got = scan_filesystem("/", &walk, &default_exclusions());
    assert_eq!(got, Ok(vec![recorded("kept", 0xaa)]));
}

#[test]
fn scan_skips_files_that_could_not_be_read() {
    let walk = vec![
        WalkItem::Entry {
            path: "/a".to_string(),
            depth: 1,
            kind: FileKind::Regular,
            stat: None,
            digest: Some(raw(0xaa)),
        },
        WalkItem::Entry {
            path: "/b".to_string(),
            depth: 1,
            kind: FileKind::Regular,
            stat: Some(FileStat { mode: 0o644, uid: 1, gid: 2 }),
            digest: None,
        },
        file("/c", 1, 0xcc),
    ];
    let got = scan_filesystem("/", &walk, &default_exclusions());
    assert_eq!(got, Ok(vec![recorded("c", 0xcc)]));
}

#[test]
fn scan_skips_an_empty_relative_path() {
    let walk = vec![file("/srv/file", 0, 0xaa)];
    let got = scan_filesystem("/srv/file", &walk, &default_exclusions());
    assert_eq!(got, Ok(Vec::new()));
}

#[test]
fn scan_fails_on_the_first_traversal_failure() {
    let walk = vec![
        dir("/", 0),
        file("/a", 1, 0xaa),
        WalkItem::Failure { depth: 1, message: "permission denied".to_string() },
        WalkItem::Failure { depth: 1, message: "second".to_string() },
    ];
    let got = scan_filesystem("/", &walk, &default_exclusions());
    assert_eq!(got, Err(IntegrityError::Walkdir("permission denied".to_string())));
}

#[test]
fn scan_ignores_failures_inside_excluded_subtrees() {
    let walk = vec![
        dir("/", 0),
        dir("/proc", 1),
        WalkItem::Failure { depth: 2, message: "permission denied".to_string() },
        file("/a", 1, 0xaa),
    ];
    let got = scan_filesystem("/", &walk, &default_exclusions());
    assert_eq!(got, Ok(vec![recorded("a", 0xaa)]));
}

#[test]
fn scanning_twice_gives_the_same_entries() {
    let walk = vec![dir("/", 0), dir("/etc", 1), file("/etc/passwd", 2, 0xaa), file("/b", 1, 0xbb)];
    let first = scan_filesystem("/", &walk, &default_exclusions());
    let second = scan_filesystem("/", &walk, &default_exclusions());
    assert_eq!(first, second);
}

#[test]
fn baseline_of_a_scan() {
    let walk = vec![dir("/", 0), file("/a", 1, 0xaa)];
    let b = scan_baseline("/", "img-1", &walk, &default_exclusions()).unwrap();
    assert_eq!(b.image_id, "img-1");
    assert_eq!(b.entries, vec![recorded("a", 0xaa)]);
    assert!(b.timestamp.len() >= 20);
    assert!(b.timestamp.contains('T'));
    let failing = vec![WalkItem::Failure { depth: 0, message: "gone".to_string() }];
    assert_eq!(
        scan_baseline("/", "img-1", &failing, &default_exclusions()),
        Err(IntegrityError::Walkdir("gone".to_string()))
    );
    let made = make_baseline("img-2", "2023-01-01T00:00:00Z".to_string(), vec![recorded("a", 0xaa)]);
    assert_eq!(made.image_id, "img-2");
    assert_eq!(made.timestamp, "2023-01-01T00:00:00Z");
    assert_eq!(made.entries.len(), 1);
}
