use termite::{FileConfig, LevelFilter, Stamp};

#[test]
fn file_config_defaults() {
    let cfg = FileConfig::default();
    assert_eq!(cfg.log_level, LevelFilter::Off);
    assert_eq!(cfg.path, ".");
    assert_eq!(cfg.max_file_size, 1048576);
    assert_eq!(cfg.logs_to_keep, 1);
    assert_eq!(cfg.log_name, "log.log");
}

#[test]
fn file_config_builders_set_one_field() {
    let cfg = FileConfig::default()
        .max_file_size(10)
        .logs_to_keep(3)
        .log_name("app.log")
        .log_level(LevelFilter::Debug);
    assert_eq!(cfg.max_file_size, 10);
    assert_eq!(cfg.logs_to_keep, 3);
    assert_eq!(cfg.log_name, "app.log");
    assert_eq!(cfg.log_level, LevelFilter::Debug);
    assert_eq!(cfg.path, ".");
}

#[test]
fn no_rotation_while_writes_stay_within_limit() {
    let cfg = FileConfig::default().max_file_size(30);
    let mut size: u64 = 0;
    for line in ["first line", "second", "third one!!"] {
        size += line.len() as u64 + 1;
        assert!(!cfg.rotation_due(size));
    }
    assert_eq!(size, 30);
    assert!(cfg.rotation_due(31));
}

#[test]
fn one_rotation_when_size_passes_limit() {
    let cfg = FileConfig::default().max_file_size(100);
    let now = Stamp { year: 2024, month: 3, day: 5, hour: 14, minute: 7, second: 9 };
    let dir: Vec<String> = vec!["log.log".to_string()];
    assert_eq!(cfg.rotation_target(100, &now, &dir), None);
    assert_eq!(
        cfg.rotation_target(101, &now, &dir),
        Some("2024-03-05.02:07:09PM-log.log".to_string())
    );
}

#[test]
fn same_second_rotation_does_not_overwrite_an_archive() {
    let cfg = FileConfig::default().max_file_size(0);
    let now = Stamp { year: 2024, month: 3, day: 5, hour: 14, minute: 7, second: 9 };
    let dir: Vec<String> = vec![
        "log.log".to_string(),
        "2024-03-05.02:07:09PM-log.log".to_string(),
    ];
    assert_eq!(cfg.rotation_target(5, &now, &dir), None);
    let later = Stamp { second: 10, ..now };
    assert_eq!(
        cfg.rotation_target(5, &later, &dir),
        Some("2024-03-05.02:07:10PM-log.log".to_string())
    );
}
