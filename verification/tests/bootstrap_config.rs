use pwmd::bootstrap::worker_counts;
use pwmd::config::{ConsoleColorMode, LogFileMode, LoggingConfig};

#[test]
fn worker_counts_scale() {
    assert_eq!(worker_counts(1), (1, 1));
    assert_eq!(worker_counts(4), (1, 2));
    assert_eq!(worker_counts(16), (1, 14));
}

#[test]
fn worker_counts_zero_cores_still_one_each() {
    assert_eq!(worker_counts(0), (1, 1));
    assert_eq!(worker_counts(2), (1, 1));
    assert_eq!(worker_counts(3), (1, 1));
}

#[test]
fn parse_log_file_mode_values() {
    assert_eq!(LogFileMode::parse("on").expect("on"), LogFileMode::On);
    assert_eq!(LogFileMode::parse("OFF").expect("off"), LogFileMode::Off);
    assert_eq!(
        LogFileMode::parse("required").expect("required"),
        LogFileMode::Required
    );
    assert!(LogFileMode::parse("bad").is_err());
}

#[test]
fn parse_console_color_mode_values() {
    assert_eq!(
        ConsoleColorMode::parse("auto").expect("auto"),
        ConsoleColorMode::Auto
    );
    assert_eq!(
        ConsoleColorMode::parse("always").expect("always"),
        ConsoleColorMode::Always
    );
    assert_eq!(
        ConsoleColorMode::parse("never").expect("never"),
        ConsoleColorMode::Never
    );
    assert!(ConsoleColorMode::parse("bad").is_err());
}

#[test]
fn parse_modes_trim_and_fold_case() {
    assert_eq!(LogFileMode::parse("  Required ").expect("trimmed"), LogFileMode::Required);
    assert_eq!(ConsoleColorMode::parse(" NEVER\t").expect("trimmed"), ConsoleColorMode::Never);
}

#[test]
fn auto_color_tty_gate() {
    assert!(!ConsoleColorMode::Auto.use_ansi(false));
    assert!(ConsoleColorMode::Auto.use_ansi(true));
}

#[test]
fn fixed_color_modes_ignore_tty() {
    assert!(ConsoleColorMode::Always.use_ansi(false));
    assert!(!ConsoleColorMode::Never.use_ansi(true));
}

#[test]
fn log_cfg_bounds_reject_zero() {
    let mut cfg = LoggingConfig::default();
    cfg.rotate_size_mb = 0;
    assert!(cfg.validate().is_err());
    cfg.rotate_size_mb = 1;
    cfg.rotate_max_files = 0;
    assert!(cfg.validate().is_err());
}

#[test]
fn log_cfg_upper_bounds_and_defaults_pass() {
    let mut cfg = LoggingConfig::default();
    assert!(cfg.validate().is_ok());
    cfg.rotate_size_mb = 1025;
    assert!(cfg.validate().is_err());
    cfg.rotate_size_mb = 1024;
    cfg.rotate_max_files = 1025;
    assert!(cfg.validate().is_err());
    cfg.rotate_max_files = 1024;
    assert!(cfg.validate().is_ok());
}

#[test]
fn logging_defaults_match_slice30_template() {
    let cfg = LoggingConfig::default();
    assert_eq!(cfg.log_dir, "logs".to_string());
    assert_eq!(cfg.file_template, "{date}/{log_name}-{node_id}-{time}.log");
    assert_eq!(
        cfg.peer_file_template,
        "{date}/pwmd-peer-{node_id}-{time}.log"
    );
}

#[test]
fn color_auto_no_tty_plain() {
    assert!(!ConsoleColorMode::Auto.use_ansi(false));
    assert!(ConsoleColorMode::Always.use_ansi(false));
    assert!(!ConsoleColorMode::Never.use_ansi(true));
}

#[test]
fn logging_bounds_are_validated() {
    let mut cfg = LoggingConfig::default();
    cfg.rotate_size_mb = 0;
    assert!(cfg.validate().is_err());
    cfg.rotate_size_mb = 1;
    cfg.rotate_max_files = 0;
    assert!(cfg.validate().is_err());
}

#[test]
fn mode_parse_errors_quote_the_input() {
    assert_eq!(
        ConsoleColorMode::parse(" Loud "),
        Err("invalid console color mode \"loud\"; expected auto|always|never".to_string())
    );
    assert!(LogFileMode::parse("x\"y").unwrap_err().contains("\"x\\\"y\""));
}
