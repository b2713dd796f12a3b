use pwmd::log_override::LogOverrides;
use pwmd::logfmt::{
    bearer_value, civil_from_days, color_field_value, expand_log_template, format_event_line, highlight_numbers,
    hms_millis, is_progress_console_line, is_progress_line, looks_like_id, norm_focus, norm_level,
    op_log_auth, ovr_expires_at, ovr_filter_spec, ovr_ttl_ok, replace_str, sanitize_template_token,
    trim_reason, LogLevel, TemplateClock,
};

fn fields(pairs: &[(&str, &str)]) -> Vec<(String, String)> {
    pairs.iter().map(|(k, v)| (k.to_string(), v.to_string())).collect()
}

fn clock() -> TemplateClock {
    TemplateClock {
        date: "2024-05-06".into(),
        time: "010203".into(),
        datetime: "2024-05-06T010203".into(),
        ut: "01:02:03.004".into(),
    }
}

#[test]
fn formatter_plain_contract() {
    let line = format_event_line(
        "12:00:00.000",
        LogLevel::Info,
        "tx_included",
        &fields(&[("height", "42"), ("tx_id", "0xabc123")]),
        false,
    );
    assert!(line.contains("#INFO: tx_included | height=42 tx_id=0xabc123"));
    assert!(line.starts_with('['));
    assert!(line.contains("] #INFO:"));
    assert_eq!(line, "[12:00:00.000] #INFO: tx_included | height=42 tx_id=0xabc123");
}

#[test]
fn fmt_clr_warn_err_tags() {
    let warn = format_event_line("t", LogLevel::Warn, "warn_event", &Vec::new(), true);
    let err = format_event_line("t", LogLevel::Error, "err_event", &Vec::new(), true);
    assert!(warn.contains("\x1b[31m#WARN\x1b[0m"));
    assert!(err.contains("\x1b[91m#ERROR\x1b[0m"));
}

#[test]
fn fmt_clr_info_stage_nums() {
    let info = format_event_line("t", LogLevel::Info, "sealed height=42", &Vec::new(), true);
    let stage = format_event_line("t", LogLevel::Debug, "sync pass 7", &Vec::new(), true);
    assert!(info.contains("\x1b[94m"));
    assert!(stage.contains("\x1b[93m"));
    assert!(info.contains("\x1b[95m42\x1b[0m"));
    assert!(stage.contains("\x1b[95m7\x1b[0m"));
}

#[test]
fn num_hi_msg_kv_values() {
    let line = format_event_line(
        "t",
        LogLevel::Info,
        "processed 17 items in 12.5 ms",
        &fields(&[("amount", "9000")]),
        true,
    );
    assert!(line.contains("\x1b[95m17\x1b[0m"));
    assert!(line.contains("\x1b[95m12.5\x1b[0m"));
    assert!(line.contains("amount=\x1b[95m9000\x1b[0m"));
}

#[test]
fn num_hi_skip_hash_like() {
    let line = format_event_line(
        "t",
        LogLevel::Info,
        "tx 0xabc123deadbeef hash",
        &fields(&[("id", "7j5f3Q2x9kLmN8pR")]),
        true,
    );
    assert!(!line.contains("\x1b[95m0xabc123deadbeef\x1b[0m"));
    assert!(line.contains("id=\x1b[92m7j5f3Q2x9kLmN8pR\x1b[0m"));
}

#[test]
fn clr_fld_vals_ok() {
    let line = format_event_line(
        "t",
        LogLevel::Info,
        "status",
        &fields(&[("s", "ok"), ("n", "42"), ("j", "{\"a\":1}")]),
        true,
    );
    assert!(line.contains("s=\x1b[92mok\x1b[0m"));
    assert!(line.contains("n=\x1b[95m42\x1b[0m"));
    assert!(line.contains("j=\x1b[97m{\"a\":1}\x1b[0m"));
}

#[test]
fn highlight_numbers_signs_and_ids() {
    assert_eq!(highlight_numbers("a -5 b"), "a \x1b[95m-5\x1b[0m b");
    assert_eq!(highlight_numbers("x+"), "x+");
    assert_eq!(highlight_numbers("deadbeefcafe"), "deadbeefcafe");
    assert!(looks_like_id("0xabcdef"));
    assert!(!looks_like_id("0xabcde"));
    assert_eq!(color_field_value("plain"), "\x1b[92mplain\x1b[0m");
}

#[test]
fn replace_is_left_to_right_non_overlapping() {
    assert_eq!(replace_str("aaa", "aa", "b"), "ba");
    assert_eq!(replace_str("x{a}y{a}", "{a}", "1"), "x1y1");
}

#[test]
fn hms_stamp_formatting() {
    assert_eq!(hms_millis(0), "00:00:00.000");
    assert_eq!(hms_millis(86_400_000 + 3_723_004), "01:02:03.004");
}

#[test]
fn template_expands_subdir_placeholders() {
    let p = expand_log_template(
        "{date}/{log_name}-{node_id}-{time}.log",
        &clock(),
        "pwmd",
        Some("node-a"),
        "77",
    )
    .expect("expand");
    assert_eq!(p, "2024-05-06/pwmd-node-a-010203.log");
    assert!(p.ends_with(".log"));
}

#[test]
fn template_expands_ut_placeholder() {
    let p = expand_log_template("{date}/{log_name}_~UT.log", &clock(), "pwmd", None, "1")
        .expect("expand");
    let name = p.rsplit('/').next().expect("file name");
    assert!(name.starts_with("pwmd_"));
    assert!(name.ends_with(".log"));
    assert!(!name.contains("~UT"));
    let time = name.trim_start_matches("pwmd_").trim_end_matches(".log");
    assert_eq!(time.len(), "00:00:00.000".len());
}

#[test]
fn template_rejects_parent_dir() {
    let err = expand_log_template("../oops.log", &clock(), "pwmd", None, "1").expect_err("must fail");
    assert!(err.contains("must not contain '..'"));
    assert!(expand_log_template("a/..b.log", &clock(), "pwmd", None, "1").is_ok());
}

#[test]
fn template_rejects_absolute() {
    let err = expand_log_template("/tmp/oops.log", &clock(), "pwmd", None, "1").expect_err("must fail");
    assert!(err.contains("relative"));
}

#[test]
fn template_rejects_blank_name_and_empty_result() {
    assert!(expand_log_template("x.log", &clock(), "  ", None, "1").is_err());
    let e = expand_log_template("{pid}", &clock(), "pwmd", None, "").expect_err("empty");
    assert!(e.contains("empty path"));
}

#[test]
fn tmpl_node_id_sanitize_ok() {
    let p = expand_log_template(
        "{date}/{log_name}-{node_id}-{time}.log",
        &clock(),
        "pwmd",
        Some("node:/with*bad chars"),
        "1",
    )
    .expect("expand");
    let name = p.rsplit('/').next().expect("file name");
    assert!(name.starts_with("pwmd-node__with_bad_chars-"));
    assert!(name.ends_with(".log"));
}

#[test]
fn tmpl_node_id_fallback_ok() {
    let p = expand_log_template("{date}/{log_name}-{node_id}-{time}.log", &clock(), "pwmd", None, "1")
        .expect("expand");
    let name = p.rsplit('/').next().expect("file name");
    assert!(name.starts_with("pwmd-node-unknown-"));
    assert_eq!(sanitize_template_token("   "), "node-unknown");
}

#[test]
fn override_inputs_normalised() {
    assert_eq!(norm_level(" WARN ").expect("level"), "warn");
    assert!(norm_level("verbose").is_err());
    assert_eq!(norm_focus("Seal:Loop").expect("focus"), "seal:loop");
    assert!(norm_focus("disk").is_err());
    assert_eq!(trim_reason(Some("  why ".into())), Some("why".into()));
    assert_eq!(trim_reason(Some("   ".into())), None);
    assert!(ovr_ttl_ok(1) && ovr_ttl_ok(3600) && !ovr_ttl_ok(0) && !ovr_ttl_ok(3601));
    assert_eq!(ovr_expires_at(1_000, 5), 6_000);
    assert_eq!(ovr_expires_at(u64::MAX - 1, 5), u64::MAX);
}

#[test]
fn override_filter_specs() {
    assert_eq!(ovr_filter_spec("info", "debug", "all"), "debug");
    assert_eq!(
        ovr_filter_spec(" info ", "trace", "seal:loop"),
        "info,pwmd::lifecycle=trace,pwmd::lease=trace"
    );
    assert_eq!(ovr_filter_spec("", "warn", "api"), "pwmd::api=warn");
    assert_eq!(ovr_filter_spec("", "warn", "unknown"), "warn");
}

#[test]
fn operator_auth_rules() {
    assert_eq!(bearer_value("Bearer  abc "), Some("abc"));
    assert_eq!(bearer_value("Bearer   "), None);
    assert_eq!(bearer_value("Basic abc"), None);
    assert_eq!(op_log_auth(true, None, None), Some("loopback"));
    assert_eq!(op_log_auth(false, Some("s3"), Some("s3")), Some("token"));
    assert_eq!(op_log_auth(false, Some("s3"), Some("no")), None);
    assert_eq!(op_log_auth(false, None, Some("s3")), None);
}

#[test]
fn progress_lines() {
    assert!(is_progress_line(b"50%\r\n  "));
    assert!(!is_progress_line(b"done\n"));
    assert!(!is_progress_line(b" \n"));
    assert!(is_progress_console_line("x\r"));
    assert!(!is_progress_console_line("x"));
}

#[test]
fn log_override_lifecycle() {
    let mut ovr = LogOverrides::new();
    let out = ovr.out("info".to_string());
    assert!(!out.active);
    assert_eq!(out.baseline, "info");
    let r1 = ovr.set("debug".to_string(), "api".to_string(), Some("probe".to_string()), 1_000, 61_000, "loopback");
    assert_eq!(r1, 1);
    let out = ovr.out("info".to_string());
    assert!(out.active);
    assert_eq!(out.level.as_deref(), Some("debug"));
    assert_eq!(out.focus.as_deref(), Some("api"));
    assert_eq!(out.expires_at_ms, Some(61_000));
    assert_eq!(out.reason.as_deref(), Some("probe"));
    assert!(!ovr.timer_fires(r1, 60_999));
    assert!(ovr.timer_fires(r1, 61_000));
    let r2 = ovr.set("trace".to_string(), "all".to_string(), None, 2_000, 3_000, "token");
    assert_eq!(r2, 2);
    assert!(!ovr.timer_fires(r1, 99_999));
    assert!(ovr.expired(3_000));
    assert!(!ovr.expired(2_999));
    assert!(ovr.clear());
    assert!(!ovr.clear());
    assert_eq!(ovr.counter, 3);
    assert!(!ovr.timer_fires(r2, 99_999));
}

fn is_leap(y: u64) -> bool {
    y % 4 == 0 && (y % 100 != 0 || y % 400 == 0)
}

#[test]
fn civil_dates_walk_the_calendar() {
    let month_len = |y: u64, m: u64| match m {
        2 => if is_leap(y) { 29 } else { 28 },
        4 | 6 | 9 | 11 => 30,
        _ => 31,
    };
    let (mut y, mut m, mut d) = (1970u64, 1u64, 1u64);
    for days in 0..200_000u64 {
        assert_eq!(civil_from_days(days), (y, m, d), "day {days}");
        d += 1;
        if d > month_len(y, m) {
            d = 1;
            m += 1;
            if m > 12 {
                m = 1;
                y += 1;
            }
        }
    }
    assert_eq!(civil_from_days(11_016), (2000, 2, 29));
    assert_eq!(civil_from_days(19_723), (2024, 1, 1));
}

#[test]
fn prog_cr_tail_hit() {
    assert!(is_progress_console_line("#INFO: sealed height=42    \r"));
    assert!(!is_progress_console_line("#INFO: sealed height=42"));
}
