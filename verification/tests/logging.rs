use hack_and_hike::front_log;
use hack_and_hike::logger::char_boundary_at_most;
use hack_and_hike::logger::{frame_record, HistoryBuffer, LogStore, HISTORY_BYTES, LOG_RECORD_BYTES};
use hack_and_hike::ring::PsramByteRing;

fn contents(ring: &PsramByteRing) -> Vec<u8> {
    let mut out = vec![0u8; ring.len()];
    let n = ring.copy_range_to(0, &mut out);
    out.truncate(n);
    out
}

#[test]
fn ring_keeps_whole_records_within_capacity() {
    let mut ring = PsramByteRing::new(10);
    assert!(ring.push_line(b"abc\n"));
    assert!(ring.push_line(b"def\n"));
    assert_eq!(contents(&ring), b"abc\ndef\n".to_vec());
    assert!(ring.push_line(b"gh\n"));
    assert_eq!(contents(&ring), b"def\ngh\n".to_vec());
    assert!(ring.len() <= ring.capacity());
    assert_eq!(ring.capacity(), 10);
}

#[test]
fn ring_refuses_empty_or_oversized_records() {
    let mut ring = PsramByteRing::new(4);
    assert!(!ring.push_line(b""));
    assert!(!ring.push_line(b"12345"));
    assert_eq!(ring.len(), 0);
    assert!(ring.push_line(b"123\n"));
    assert_eq!(contents(&ring), b"123\n".to_vec());
}

#[test]
fn ring_wraps_around_storage() {
    let mut ring = PsramByteRing::new(8);
    for line in [&b"ab\n"[..], b"cd\n", b"ef\n", b"gh\n", b"ij\n"] {
        assert!(ring.push_line(line));
    }
    assert_eq!(contents(&ring), b"gh\nij\n".to_vec());
    let mut part = [0u8; 2];
    assert_eq!(ring.copy_range_to(3, &mut part), 2);
    assert_eq!(&part, b"ij");
    assert_eq!(ring.copy_range_to(6, &mut part), 0);
}

#[test]
fn ring_drops_oldest_line() {
    let mut ring = PsramByteRing::new(16);
    ring.push_line(b"one\n");
    ring.push_line(b"two\n");
    ring.drop_oldest_line();
    assert_eq!(contents(&ring), b"two\n".to_vec());
}

#[test]
fn log_store_revision_counts_records() {
    let mut store = LogStore::new();
    assert_eq!(store.revision(), 0);
    store.push_back(b"[INFO] boot\n");
    store.push_back(b"");
    assert_eq!(store.revision(), 1);
    assert_eq!(store.len(), 12);
    let mut out = [0u8; 64];
    let (len, revision) = store.snapshot(&mut out).unwrap();
    assert_eq!(len, 12);
    assert_eq!(revision, 1);
    assert_eq!(&out[..len], b"[INFO] boot\n");
}

#[test]
fn log_store_snapshot_limited_by_buffer() {
    let mut store = LogStore::new();
    store.push_back(b"hello\n");
    let mut out = [7u8; 3];
    assert_eq!(store.snapshot(&mut out), Some((3, 1)));
    assert_eq!(&out, b"hel");
}

#[test]
fn log_store_snapshot_rejects_invalid_utf8() {
    let mut store = LogStore::new();
    store.push_back(&[0xFF, b'\n']);
    let mut out = [0u8; 8];
    assert_eq!(store.snapshot(&mut out), None);
}

#[test]
fn history_buffer_follows_revisions() {
    let mut store = LogStore::new();
    let mut buffer = HistoryBuffer::new();
    assert_eq!(buffer.text(), Some(""));
    store.push_back(b"first\n");
    assert!(buffer.refresh(&store));
    assert_eq!(buffer.text(), Some("first\n"));
    assert!(!buffer.refresh(&store));
    store.push_back(b"second\n");
    assert!(buffer.refresh(&store));
    assert_eq!(buffer.text(), Some("first\nsecond\n"));
}

#[test]
fn history_keeps_newest_records() {
    let mut store = LogStore::new();
    let line = [b'x'; 99];
    let mut record = line.to_vec();
    record.push(b'\n');
    for _ in 0..50 {
        store.push_back(&record);
    }
    assert!(store.len() <= HISTORY_BYTES);
    assert_eq!(store.len() % 100, 0);
    assert_eq!(store.revision(), 50);
}

#[test]
fn framed_record_ends_in_newline() {
    assert_eq!(frame_record(b"[INFO] hi", false), b"[INFO] hi\n".to_vec());
}

#[test]
fn overflowing_record_is_cut_and_marked() {
    let long = vec![b'a'; LOG_RECORD_BYTES];
    let framed = frame_record(&long, false);
    assert_eq!(framed.len(), LOG_RECORD_BYTES);
    assert!(framed.ends_with(b"...\n"));
    assert!(framed[..508].iter().all(|b| *b == b'a'));

    let short = frame_record(b"abc", true);
    assert_eq!(short, b"abc...\n".to_vec());
}

#[test]
fn cut_respects_character_boundaries() {
    let mut text = vec![b'a'; 507];
    text.extend_from_slice("é".as_bytes());
    text.extend_from_slice(&[b'b'; 3]);
    let framed = frame_record(&text, true);
    assert_eq!(framed.len(), 507 + 4);
    assert!(core::str::from_utf8(&framed).is_ok());
}

#[test]
fn front_log_keeps_newest_first() {
    let mut store = hack_and_hike::front_log::LogStore::new();
    assert_eq!(store.as_str(), "");
    store.push_line(b"[INFO] one\n");
    store.push_line(b"[INFO] two\n");
    assert_eq!(store.as_str(), "[INFO] two\n[INFO] one\n");
    assert_eq!(store.len(), 22);
}

#[test]
fn front_log_evicts_oldest_from_back() {
    let mut store = front_log::LogStore::new();
    let mut record = vec![b'a'; 999];
    record.push(b'\n');
    store.push_line(&record);
    let mut second = vec![b'b'; 999];
    second.push(b'\n');
    store.push_line(&second);
    let mut third = vec![b'c'; 99];
    third.push(b'\n');
    store.push_line(&third);
    let text = store.as_str().to_string();
    assert_eq!(text.len(), 1100);
    assert!(text.starts_with("ccc"));
    assert!(text.ends_with("b\n"));
    assert!(store.len() <= front_log::MAX_LOG_SIZE);
}

#[test]
fn front_log_pop_and_capacity() {
    let mut store = front_log::LogStore::new();
    store.push_line(b"x\n");
    store.push_line(b"y\n");
    store.pop_oldest_line();
    assert_eq!(store.as_str(), "y\n");
    store.pop_oldest_line();
    assert_eq!(store.as_str(), "");
    store.push_line(b"z\n");
    store.ensure_capacity(front_log::MAX_LOG_SIZE + 1);
    assert_eq!(store.len(), 0);
    let long = vec![b'q'; front_log::MAX_LOG_SIZE + 1];
    store.push_line(&long);
    assert_eq!(store.len(), 0);
}

#[test]
fn front_log_wraps_and_linearizes() {
    let mut store = hack_and_hike::front_log::LogStore::new();
    for k in 0..50u8 {
        let mut record = vec![b'a' + (k % 26); 79];
        record.push(b'\n');
        store.push_line(&record);
    }
    let text = store.as_str().to_string();
    assert_eq!(text.len() % 80, 0);
    assert!(text.len() <= 2048);
    assert!(text.starts_with(&"x".repeat(79)));
    assert_eq!(store.as_str(), text);
}

#[test]
fn front_log_invalid_text_reads_empty() {
    let mut store = hack_and_hike::front_log::LogStore::new();
    store.push_line(&[0xC3, b'\n']);
    assert_eq!(store.as_str(), "");
    assert_eq!(store.len(), 2);
}

#[test]
fn pieces_cut_on_character_boundaries() {
    assert_eq!(char_boundary_at_most(b"hello", 10), 5);
    assert_eq!(char_boundary_at_most(b"hello", 3), 3);
    let text = "aé".as_bytes();
    assert_eq!(char_boundary_at_most(text, 2), 1);
    assert_eq!(char_boundary_at_most(text, 1), 1);
    assert_eq!(char_boundary_at_most(text, 0), 0);
}

#[test]
fn every_logged_record_advances_the_revision_by_one() {
    let mut store = LogStore::new();
    assert_eq!(store.revision(), 0);
    let long = vec![b'z'; LOG_RECORD_BYTES];
    for k in 0..20u32 {
        let record = frame_record(&long, k % 2 == 0);
        store.push_back(&record);
        assert_eq!(store.revision(), k + 1);
    }
    let short = frame_record(b"[INFO] tick", false);
    store.push_back(&short);
    assert_eq!(store.revision(), 21);
}

#[test]
fn refresh_keeps_the_shown_text_when_the_history_is_not_text() {
    let mut store = LogStore::new();
    let mut buffer = HistoryBuffer::new();
    store.push_back(b"ok\n");
    assert!(buffer.refresh(&store));
    store.push_back(&[0xC3, b'\n']);
    assert!(!buffer.refresh(&store));
    assert_eq!(buffer.text(), Some("ok\n"));
}
