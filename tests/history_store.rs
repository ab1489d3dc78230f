use clipboard_hack::clock::{clock_instant, format_clock};
use clipboard_hack::history::{selection_after_remove, ClipboardEntry, ClipboardHistory, StoredEntry, DEFAULT_CAPACITY};

fn contents(h: &ClipboardHistory) -> Vec<String> {
    h.entries().iter().map(|e| e.content().to_string()).collect()
}

#[test]
fn add_respects_capacity_and_keeps_newest_first() {
    let mut h = ClipboardHistory::new(3);
    for text in ["a", "b", "c", "d", "e"] {
        assert!(h.add(text.to_string()));
        assert!(h.len() <= 3);
        assert_eq!(h.get(0).unwrap().content(), text);
    }
    assert_eq!(contents(&h), vec!["e", "d", "c"]);
}

#[test]
fn add_same_text_twice_keeps_one_entry() {
    let mut h = ClipboardHistory::new(50);
    assert!(h.add("x".to_string()));
    assert!(!h.add("x".to_string()));
    assert_eq!(h.len(), 1);
}

#[test]
fn repeat_check_only_looks_at_newest_entry() {
    let mut h = ClipboardHistory::new(50);
    assert!(h.add("x".to_string()));
    assert!(h.add("y".to_string()));
    assert!(h.add("x".to_string()));
    assert_eq!(contents(&h), vec!["x", "y", "x"]);
}

#[test]
fn add_at_full_store_evicts_oldest() {
    let mut h = ClipboardHistory::new(2);
    h.add_at("one".to_string(), 1);
    h.add_at("two".to_string(), 2);
    assert!(h.add_at("three".to_string(), 3));
    assert_eq!(contents(&h), vec!["three", "two"]);
    assert_eq!(h.get(1).unwrap().unix_secs(), 2);
}

#[test]
fn save_then_load_round_trips() {
    let mut h = ClipboardHistory::new(5);
    h.add_at("first".to_string(), 100);
    h.add_at("second".to_string(), 200);
    h.add_at("third".to_string(), 300);
    let stored = h.to_stored();
    let loaded = ClipboardHistory::from_stored(stored, 5);
    assert_eq!(contents(&loaded), vec!["third", "second", "first"]);
    let secs: Vec<u64> = loaded.entries().iter().map(|e| e.unix_secs()).collect();
    assert_eq!(secs, vec![300, 200, 100]);
}

#[test]
fn load_truncates_to_capacity_keeping_newest() {
    let stored = vec![
        StoredEntry { content: "n1".to_string(), unix_secs: 3 },
        StoredEntry { content: "n2".to_string(), unix_secs: 2 },
        StoredEntry { content: "n3".to_string(), unix_secs: 1 },
    ];
    let h = ClipboardHistory::from_stored(stored, 2);
    assert_eq!(contents(&h), vec!["n1", "n2"]);
}

#[test]
fn load_of_nothing_is_empty() {
    let h = ClipboardHistory::from_stored(Vec::new(), 50);
    assert!(h.is_empty());
    assert_eq!(h.len(), 0);
}

#[test]
fn remove_shortens_by_one_and_keeps_order() {
    let mut h = ClipboardHistory::new(10);
    for text in ["a", "b", "c", "d"] {
        h.add(text.to_string());
    }
    h.remove(1);
    assert_eq!(h.len(), 3);
    assert_eq!(contents(&h), vec!["d", "b", "a"]);
}

#[test]
fn remove_out_of_range_changes_nothing() {
    let mut h = ClipboardHistory::new(10);
    h.add("a".to_string());
    h.remove(5);
    assert_eq!(contents(&h), vec!["a"]);
}

#[test]
fn clear_empties_history() {
    let mut h = ClipboardHistory::new(10);
    h.add("a".to_string());
    h.add("b".to_string());
    h.clear();
    assert!(h.is_empty());
    assert!(h.get(0).is_none());
}

#[test]
fn preview_flattens_and_truncates() {
    let e = ClipboardEntry::with_timestamp("  hello\nworld\t! ".to_string(), 0);
    assert_eq!(e.preview(5), "hello…");
    assert_eq!(e.preview(45), "hello world !");
    assert_eq!(e.preview(13), "hello world !");
}

#[test]
fn new_entry_keeps_content() {
    let e = ClipboardEntry::new("text".to_string());
    assert_eq!(e.content(), "text");
    assert!(e.unix_secs() > 0);
}

#[test]
fn timestamp_has_clock_shape() {
    let e = ClipboardEntry::with_timestamp("x".to_string(), 1_700_000_000);
    let t = e.timestamp_str();
    let cs: Vec<char> = t.chars().collect();
    assert_eq!(cs.len(), 8);
    assert_eq!(cs[2], ':');
    assert_eq!(cs[5], ':');
    assert!(cs.iter().enumerate().all(|(i, c)| i == 2 || i == 5 || c.is_ascii_digit()));
}

#[test]
fn clock_formatting() {
    assert_eq!(format_clock(Some((7, 5, 9))), "07:05:09");
    assert_eq!(format_clock(Some((23, 59, 0))), "23:59:00");
    assert_eq!(format_clock(None), "??:??:??");
}

#[test]
fn selection_follows_removal() {
    assert_eq!(selection_after_remove(Some(2), 2), None);
    assert_eq!(selection_after_remove(Some(3), 1), Some(2));
    assert_eq!(selection_after_remove(Some(0), 1), Some(0));
    assert_eq!(selection_after_remove(None, 0), None);
}

#[test]
fn default_history_holds_fifty() {
    let mut h = ClipboardHistory::default();
    assert!(h.is_empty());
    for i in 0..60u64 {
        h.add_at(format!("item {i}"), i);
    }
    assert_eq!(h.len(), DEFAULT_CAPACITY);
    assert_eq!(h.len(), 50);
    assert_eq!(h.get(0).unwrap().content(), "item 59");
    assert_eq!(h.get(49).unwrap().content(), "item 10");
}

#[test]
fn clock_instant_stays_signed() {
    assert_eq!(clock_instant(1_700_000_000), 1_700_000_000);
    assert_eq!(clock_instant(u64::MAX), 0);
    assert_eq!(clock_instant(i64::MAX as u64), i64::MAX);
}
