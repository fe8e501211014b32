use termite::{Color, ConsoleConfig, FileConfig, Level, LevelFilter, Stamp, Termite, TermiteConfig, TermiteLogError};

fn noon() -> Stamp {
    Stamp { year: 2024, month: 3, day: 5, hour: 12, minute: 0, second: 1 }
}

#[test]
fn level_names_and_thresholds() {
    assert_eq!(Level::Error.as_str(), "ERROR");
    assert_eq!(Level::Warn.as_str(), "WARN");
    assert_eq!(Level::Info.as_str(), "INFO");
    assert_eq!(Level::Debug.as_str(), "DEBUG");
    assert_eq!(Level::Trace.as_str(), "TRACE");
    assert!(LevelFilter::Info.allows(Level::Warn));
    assert!(LevelFilter::Info.allows(Level::Info));
    assert!(!LevelFilter::Info.allows(Level::Debug));
    assert!(!LevelFilter::Off.allows(Level::Error));
    assert!(LevelFilter::Trace.allows(Level::Trace));
}

#[test]
fn console_config_defaults_and_builders() {
    let c = ConsoleConfig::default();
    assert_eq!(c.log_level, LevelFilter::Off);
    assert_eq!(c.warn_color, Color::Red);
    assert_eq!(c.info_color, Color::White);
    assert_eq!(c.debug_color, Color::Green);
    let c = c
        .log_level(LevelFilter::Info)
        .info_color(Color::Green)
        .warn_color(Color::Yellow)
        .debug_color(Color::Rgb(1, 2, 3));
    assert_eq!(c.log_level, LevelFilter::Info);
    assert_eq!(c.info_color, Color::Green);
    assert_eq!(c.warn_color, Color::Yellow);
    assert_eq!(c.debug_color, Color::Rgb(1, 2, 3));
}

#[test]
fn console_colors_by_level() {
    let c = ConsoleConfig::default().info_color(Color::Green);
    assert_eq!(c.color_for(Level::Info), Color::Green);
    assert_eq!(c.color_for(Level::Warn), Color::Red);
    assert_eq!(c.color_for(Level::Debug), Color::Green);
    let c = c.debug_color(Color::Cyan).warn_color(Color::Yellow);
    assert_eq!(c.color_for(Level::Debug), Color::Cyan);
    assert_eq!(c.color_for(Level::Warn), Color::Yellow);
    assert_eq!(c.color_for(Level::Error), Color::White);
    assert_eq!(c.color_for(Level::Trace), Color::White);
}

#[test]
fn termite_config_defaults_and_builders() {
    let cfg = TermiteConfig::default();
    assert_eq!(cfg.global_log_level, LevelFilter::Off);
    assert!(cfg.console_config.is_some());
    assert!(cfg.file_config.is_none());
    assert!(!cfg.log_time && !cfg.log_date && !cfg.log_path);
    let cfg = cfg
        .log_level(LevelFilter::Warn)
        .file_config(FileConfig::default())
        .log_time(true)
        .log_date(true)
        .log_path(true)
        .console_config(ConsoleConfig::default().info_color(Color::Blue));
    assert_eq!(cfg.global_log_level, LevelFilter::Warn);
    assert!(cfg.file_config.is_some());
    assert!(cfg.log_time && cfg.log_date && cfg.log_path);
    assert_eq!(cfg.console_config.unwrap().info_color, Color::Blue);
}

#[test]
fn renders_plain_line() {
    let t = Termite::new(TermiteConfig::default().log_level(LevelFilter::Info));
    assert_eq!(t.render_line(Level::Info, Some(noon()), Some("app::db"), "A nice test"), "INFO::A nice test");
}

#[test]
fn renders_date_and_origin() {
    let t = Termite::new(TermiteConfig::default().log_date(true).log_path(true));
    assert_eq!(
        t.render_line(Level::Warn, Some(noon()), Some("app::db"), "disk low"),
        "2024-03-05.12:00:01PM app::db WARN::disk low"
    );
    assert_eq!(
        t.render_line(Level::Warn, Some(noon()), None, "disk low"),
        "2024-03-05.12:00:01PM WARN::disk low"
    );
    assert_eq!(t.render_line(Level::Warn, None, None, "disk low"), "WARN::disk low");
}

#[test]
fn dispatches_only_enabled_records() {
    let t = Termite::new(TermiteConfig::default().log_level(LevelFilter::Info));
    assert!(t.enabled(Level::Info));
    assert!(!t.enabled(Level::Debug));
    assert_eq!(t.dispatch_line(Level::Debug, Some(noon()), None, "x"), None);
    assert_eq!(t.dispatch_line(Level::Error, Some(noon()), None, "x"), Some("ERROR::x".to_string()));
    let off = Termite::new(TermiteConfig::default());
    assert_eq!(off.dispatch_line(Level::Error, Some(noon()), None, "x"), None);
}

#[test]
fn console_color_needs_a_console_sink() {
    let t = Termite::new(TermiteConfig::default());
    assert_eq!(t.console_color(Level::Info), Some(Color::White));
    assert_eq!(t.console_color(Level::Error), Some(Color::White));
    let mut cfg = TermiteConfig::default();
    cfg.console_config = None;
    assert_eq!(Termite::new(cfg).console_color(Level::Info), None);
}

#[test]
fn io_errors_become_file_errors() {
    let e = std::io::Error::new(std::io::ErrorKind::PermissionDenied, "denied");
    match TermiteLogError::from(e) {
        TermiteLogError::FileError(inner) => {
            assert_eq!(inner.kind(), std::io::ErrorKind::PermissionDenied)
        }
    }
}

#[test]
fn do_log() {
    let console_config = ConsoleConfig::default()
        .log_level(LevelFilter::Info)
        .info_color(Color::Green);
    let log_config = TermiteConfig::default()
        .log_level(LevelFilter::Info)
        .console_config(console_config);
    let termite = Termite::new(log_config);
    let line = termite.dispatch_line(Level::Info, Some(noon()), Some("termite::tests"), "A nice test");
    assert_eq!(line, Some("INFO::A nice test".to_string()));
    assert_eq!(termite.console_color(Level::Info), Some(Color::Green));
}
