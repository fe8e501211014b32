use termite::retention::{archive_stamp_of, contains_text, prune_index};
use termite::{FileConfig, Stamp};

fn st(year: u32, month: u32, day: u32, hour: u32, minute: u32, second: u32) -> Stamp {
    Stamp { year, month, day, hour, minute, second }
}

fn names(v: &[&str]) -> Vec<String> {
    v.iter().map(|s| s.to_string()).collect()
}

#[test]
fn finds_substrings() {
    assert!(contains_text("2024-03-05.02:07:09PM-log.log", "log.log"));
    assert!(contains_text("log.log", "log.log"));
    assert!(contains_text("abc", ""));
    assert!(!contains_text("catalog.lo", "log.log"));
    assert!(!contains_text("", "a"));
}

#[test]
fn reads_archive_instants() {
    assert_eq!(
        archive_stamp_of("2024-03-05.02:07:09PM-log.log", "log.log"),
        Some(st(2024, 3, 5, 14, 7, 9))
    );
    assert_eq!(archive_stamp_of("log.log", "log.log"), None);
    assert_eq!(archive_stamp_of("2024-03-05.02:07:09PM-app.log", "log.log"), None);
    assert_eq!(archive_stamp_of("2024-03-05.02:07:09PM_log.log", "log.log"), None);
    assert_eq!(archive_stamp_of("backup-log.log", "log.log"), None);
}

#[test]
fn archive_name_round_trips() {
    let cfg = FileConfig::default();
    let s = st(2025, 11, 30, 9, 8, 7);
    let name = cfg.archive_name(&s);
    assert_eq!(name, "2025-11-30.09:08:07AM-log.log");
    assert_eq!(archive_stamp_of(&name, "log.log"), Some(s));
}

#[test]
fn prunes_oldest_in_any_listing_order() {
    let listing = names(&[
        "2024-03-05.02:07:09PM-log.log",
        "notes.txt",
        "2023-12-31.11:00:00PM-log.log",
        "2024-01-01.12:00:00AM-log.log",
    ]);
    assert_eq!(prune_index(&listing, "log.log", 2), Some(2));
    assert_eq!(prune_index(&listing, "log.log", 3), None);
    assert_eq!(prune_index(&listing, "log.log", 0), Some(2));
}

#[test]
fn never_prunes_an_unreadable_name_while_a_readable_one_remains() {
    let listing = names(&[
        "old-log.log",
        "2024-03-05.02:07:09PM-log.log",
        "log.log",
        "2024-03-05.02:07:10PM-log.log",
    ]);
    assert_eq!(prune_index(&listing, "log.log", 1), Some(1));
    let unreadable = names(&["old-log.log", "log.log", "0000-log.log"]);
    assert_eq!(prune_index(&unreadable, "log.log", 1), None);
}

#[test]
fn counts_substring_matches_against_retention() {
    // "catalog.log.bak" holds the base name, so it counts toward retention.
    let listing = names(&["catalog.log.log.bak", "2024-03-05.02:07:09PM-log.log"]);
    assert_eq!(prune_index(&listing, "log.log", 1), Some(1));
    let listing = names(&["catalog.txt", "2024-03-05.02:07:09PM-log.log"]);
    assert_eq!(prune_index(&listing, "log.log", 1), None);
}

#[test]
fn keeps_two_archives_after_five_rotations() {
    let cfg = FileConfig::default().logs_to_keep(2);
    let mut dir: Vec<String> = Vec::new();
    for k in 0..5u32 {
        let name = cfg.archive_name(&st(2024, 6, 1, 10, k, 0));
        dir.push(name);
        if let Some(i) = cfg.prune_target(&dir) {
            dir.remove(i);
        }
    }
    dir.push(cfg.log_name.clone());
    assert_eq!(dir.len(), 3);
    assert_eq!(
        dir,
        names(&[
            "2024-06-01.10:03:00AM-log.log",
            "2024-06-01.10:04:00AM-log.log",
            "log.log"
        ])
    );
}

#[test]
fn keeps_every_archive_below_the_retention_count() {
    let cfg = FileConfig::default().logs_to_keep(4);
    let mut dir: Vec<String> = Vec::new();
    for k in 0..3u32 {
        dir.push(cfg.archive_name(&st(2024, 6, 1, 10, k, 0)));
        assert_eq!(cfg.prune_target(&dir), None);
    }
    assert_eq!(dir.len(), 3);
}

#[test]
fn prunes_the_same_name_whatever_the_listing_order() {
    let a = names(&[
        "2024-03-05.02:07:09PM-log.log",
        "2023-12-31.11:00:00PM-log.log",
        "notes.txt",
        "2024-01-01.12:00:00AM-log.log",
    ]);
    let b = names(&[
        "notes.txt",
        "2024-01-01.12:00:00AM-log.log",
        "2024-03-05.02:07:09PM-log.log",
        "2023-12-31.11:00:00PM-log.log",
    ]);
    let i = prune_index(&a, "log.log", 2).unwrap();
    let j = prune_index(&b, "log.log", 2).unwrap();
    assert_eq!(a[i], "2023-12-31.11:00:00PM-log.log");
    assert_eq!(a[i], b[j]);
}
