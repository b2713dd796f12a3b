use pwmd::block_timing::{
    journal_tail, parse_pending_key, pending_drop, pending_key, JSONL_MAX_ROWS, PEND_MAX_RECORDS,
};
use std::collections::BTreeMap;

fn trim_map(map: &mut BTreeMap<String, u8>, max_records: usize) {
    let names: Vec<String> = map.keys().cloned().collect();
    let keys: Vec<(u64, u32)> = names.iter().map(|k| parse_pending_key(k)).collect();
    let drop = pending_drop(&keys, max_records);
    for (name, gone) in names.iter().zip(drop) {
        if gone {
            map.remove(name);
        }
    }
}

#[test]
fn pending_tail_keeps_high() {
    let mut map = BTreeMap::new();
    for h in 1u64..=10 {
        map.insert(format!("{h}:0"), 0u8);
    }
    trim_map(&mut map, 4);
    assert_eq!(map.len(), 4);
    assert!(map.contains_key("7:0"));
    assert!(map.contains_key("8:0"));
    assert!(map.contains_key("9:0"));
    assert!(map.contains_key("10:0"));
}

#[test]
fn pending_trim_orders_by_height_then_round() {
    let keys = vec![(5, 2), (5, 0), (3, 9), (7, 0), (5, 1)];
    // (3,9) < (5,0) < (5,1) < (5,2) < (7,0): the three lowest go
    assert_eq!(pending_drop(&keys, 2), vec![false, true, true, false, true]);
    assert_eq!(pending_drop(&keys, 5), vec![false; 5]);
    assert_eq!(pending_drop(&keys, 9), vec![false; 5]);
    assert_eq!(pending_drop(&keys, 0), vec![true; 5]);
    assert_eq!(PEND_MAX_RECORDS, 1500);
}

#[test]
fn pending_keys_round_trip() {
    assert_eq!(pending_key(42, 3), "42:3");
    assert_eq!(parse_pending_key("42:3"), (42, 3));
    assert_eq!(parse_pending_key(&pending_key(u64::MAX, u32::MAX)), (u64::MAX, u32::MAX));
    assert_eq!(parse_pending_key("17"), (17, 0));
    assert_eq!(parse_pending_key("x:4"), (0, 4));
    assert_eq!(parse_pending_key("9:4294967296"), (9, 0));
    assert_eq!(parse_pending_key("9:+8:1"), (9, 8));
    assert_eq!(parse_pending_key(""), (0, 0));
}

#[test]
fn jsonl_tail_keeps_latest() {
    let mut content = String::new();
    for i in 0..1505usize {
        content.push_str(&format!("{{\"n\":{i}}}\n"));
    }
    let raw = journal_tail(&content, JSONL_MAX_ROWS).expect("trim");
    let lines: Vec<&str> = raw.lines().collect();
    assert_eq!(lines.len(), 1500);
    assert!(lines.first().is_some_and(|line| line.contains("\"n\":5")));
    assert!(lines.last().is_some_and(|line| line.contains("\"n\":1504")));
    assert!(raw.ends_with('\n'));
}

#[test]
fn journal_tail_line_endings() {
    assert_eq!(journal_tail("a\nb\n", 2), None);
    assert_eq!(journal_tail("a\r\nb\nc", 2), Some("b\nc\n".to_string()));
    assert_eq!(journal_tail("a\nb\r\nc\r\n", 1), Some("c\n".to_string()));
    assert_eq!(journal_tail("a\n\nb", 2), Some("\nb\n".to_string()));
    assert_eq!(journal_tail("a\nb", 0), Some("\n".to_string()));
    assert_eq!(journal_tail("", 0), None);
}
