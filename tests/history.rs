use zenohui::history::{history_entry, kind, EventKind, ZenohHistory};
use zenohui::payload::Payload;
use zenohui::time::{time_le_exec, LocalDateTime, Time};

fn write_entry(bytes: &[u8]) -> zenohui::history::HistoryEntry {
    history_entry(EventKind::Write, bytes.to_vec(), 100)
}

#[test]
fn formats_kind() {
    assert_eq!("Put", kind(EventKind::Write));
    assert_eq!("Delete", kind(EventKind::Delete));
}

#[test]
fn topics_below_are_segment_wise() {
    let mut h = ZenohHistory::new();
    for t in ["a/b", "a/bbb", "a/b/c", "a", "b", "a/bb"] {
        h.add(t.to_owned(), write_entry(b"x"));
    }
    assert_eq!(h.get_topics_below("a/b"), vec!["a/b".to_owned(), "a/b/c".to_owned()]);
    assert_eq!(h.get_topics_below("a"), vec!["a/b", "a/bbb", "a/b/c", "a", "a/bb"]);
    assert_eq!(h.get_topics_below("a/bb"), vec!["a/bb".to_owned()]);
    assert!(h.get_topics_below("c").is_empty());
}

#[test]
fn add_keeps_arrival_order_and_unique_topics() {
    let mut h = ZenohHistory::new();
    h.add("x".to_owned(), write_entry(b"1"));
    h.add("y".to_owned(), write_entry(b"2"));
    h.add("x".to_owned(), write_entry(b"3"));
    assert_eq!(h.topics(), vec!["x".to_owned(), "y".to_owned()]);
    let x = h.get("x").unwrap();
    assert_eq!(x.len(), 2);
    assert_eq!(x[0].payload.bytes, b"1".to_vec());
    assert_eq!(x[1].payload.bytes, b"3".to_vec());
    assert!(h.get("z").is_none());
}

#[test]
fn uncache_removes_one_entry_in_order() {
    let mut h = ZenohHistory::new();
    for p in [b"1", b"2", b"3"] {
        h.add("t".to_owned(), write_entry(p));
    }
    let removed = h.uncache_topic_entry("t", 1).unwrap();
    assert_eq!(removed.payload.bytes, b"2".to_vec());
    let rest = h.get("t").unwrap();
    assert_eq!(rest.len(), 2);
    assert_eq!(rest[0].payload.bytes, b"1".to_vec());
    assert_eq!(rest[1].payload.bytes, b"3".to_vec());
}

#[test]
fn uncache_out_of_range_or_unknown_is_none() {
    let mut h = ZenohHistory::new();
    h.add("t".to_owned(), write_entry(b"1"));
    assert!(h.uncache_topic_entry("t", 1).is_none());
    assert!(h.uncache_topic_entry("u", 0).is_none());
    assert_eq!(h.get("t").unwrap().len(), 1);
    assert_eq!(h.topics(), vec!["t".to_owned()]);
}

#[test]
fn delete_events_have_unknown_time() {
    let d = history_entry(EventKind::Delete, Vec::new(), 10);
    assert_eq!(d.time, Time::Unknown);
    let w = history_entry(EventKind::Write, b"v".to_vec(), 10);
    assert!(matches!(w.time, Time::Local(_)));
}

#[test]
fn ingest_write_then_delete() {
    let mut h = ZenohHistory::new();
    h.ingest("room/temp".to_owned(), EventKind::Write, b"21.5".to_vec(), 100);
    {
        let e = &h.get("room/temp").unwrap()[0];
        assert_eq!(e.payload_size, 4);
        assert_eq!(e.kind, EventKind::Write);
        assert_eq!(e.payload.bytes, b"21.5".to_vec());
        assert!(!e.payload.is_truncated());
        assert!(matches!(e.time, Time::Local(_)));
    }
    h.ingest("room/temp".to_owned(), EventKind::Delete, Vec::new(), 100);
    let entries = h.get("room/temp").unwrap();
    assert_eq!(entries.len(), 2);
    assert_eq!(entries[1].time, Time::Unknown);
    assert_eq!(entries[1].kind, EventKind::Delete);
    assert!(entries[1].payload.bytes.is_empty());
    assert_eq!(entries[1].payload_size, 0);
}

#[test]
fn ingest_truncates_to_limit() {
    let mut h = ZenohHistory::new();
    h.ingest("t".to_owned(), EventKind::Write, b"hello".to_vec(), 3);
    let e = &h.get("t").unwrap()[0];
    assert_eq!(e.payload.bytes, b"hel".to_vec());
    assert_eq!(e.payload_size, 5);
    assert_eq!(e.payload.original_size, 5);
    let p: &Payload = &e.payload;
    assert!(p.is_truncated());
}

#[test]
fn ingest_appends_exactly_one_entry_each_time() {
    let mut h = ZenohHistory::new();
    h.ingest("a".to_owned(), EventKind::Write, b"1".to_vec(), 10);
    h.ingest("b".to_owned(), EventKind::Write, b"2".to_vec(), 10);
    h.ingest("a".to_owned(), EventKind::Write, b"3".to_vec(), 10);
    let a = h.get("a").unwrap();
    assert_eq!(a.len(), 2);
    assert_eq!(a[0].payload.bytes, b"1".to_vec());
    assert_eq!(a[1].payload.bytes, b"3".to_vec());
    assert_eq!(h.get("b").unwrap().len(), 1);
}

#[test]
fn ingest_receipt_times_do_not_go_back() {
    let mut h = ZenohHistory::new();
    for _ in 0..5 {
        h.ingest("t".to_owned(), EventKind::Write, b"x".to_vec(), 10);
        h.ingest("t".to_owned(), EventKind::Delete, Vec::new(), 10);
    }
    let times: Vec<LocalDateTime> = h.get("t").unwrap().iter().filter_map(|e| e.time.as_optional().copied()).collect();
    assert_eq!(times.len(), 5);
    for pair in times.windows(2) {
        assert!(time_le_exec(&pair[0], &pair[1]));
    }
}

#[test]
fn time_order_compares_fields_in_turn() {
    let a = LocalDateTime { year: 2024, month: 5, day: 1, hour: 23, minute: 0, second: 0, nanosecond: 0 };
    let b = LocalDateTime { year: 2024, month: 5, day: 2, hour: 1, minute: 0, second: 0, nanosecond: 0 };
    assert!(time_le_exec(&a, &b));
    assert!(!time_le_exec(&b, &a));
    assert!(time_le_exec(&a, &a));
}

#[test]
fn topic_summary() {
    let mut h = ZenohHistory::new();
    assert!(h.summary("t").is_none());
    h.ingest("t".to_owned(), EventKind::Write, b"1".to_vec(), 10);
    h.ingest("t".to_owned(), EventKind::Delete, Vec::new(), 10);
    let s = h.summary("t").unwrap();
    assert_eq!(s.entries, 2);
    assert_eq!(s.last_kind, EventKind::Delete);
    assert_eq!(s.last_time, Time::Unknown);
    h.uncache_topic_entry("t", 0);
    h.uncache_topic_entry("t", 0);
    assert!(h.summary("t").is_none());
}

#[test]
fn cached_truncated_entry_renders_with_marker() {
    let mut h = ZenohHistory::new();
    h.ingest("t".to_owned(), EventKind::Write, b"hello".to_vec(), 3);
    h.ingest("t".to_owned(), EventKind::Write, b"abc".to_vec(), 3);
    let entries = h.get("t").unwrap();
    assert_eq!(entries[0].payload.render(true), format!("hel{}", zenohui::payload::TRUNCATION_MARKER));
    assert!(!entries[1].payload.is_truncated());
    assert_eq!(entries[1].payload.render(true), "abc");
}
