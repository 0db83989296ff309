//! Tests of the line-offset index over in-memory bytes: the scan, the
//! trailing-newline rule, clamped reads, and lossy decoding.

use logparser::offsets::{LineOffsetIndex, OffsetScanner};

#[test]
fn test_log_read() {
    let data = b"Line 1\nLine 2\nLine 3\n";
    let index = LineOffsetIndex::from_bytes("test_log.txt".to_string(), data);
    assert_eq!(index.get_total_lines(), 3);

    let lines = index.read_lines(data, 0, 3);
    assert_eq!(lines[0], "Line 1");
    assert_eq!(lines[1], "Line 2");
    assert_eq!(lines[2], "Line 3");

    let lines_partial = index.read_lines(data, 1, 1);
    assert_eq!(lines_partial.len(), 1);
    assert_eq!(lines_partial[0], "Line 2");
}

#[test]
fn three_line_file_has_no_phantom_line() {
    let data = b"a\nb\nc\n";
    let index = LineOffsetIndex::from_bytes("f".to_string(), data);
    assert_eq!(index.get_total_lines(), 3);
    assert_eq!(index.read_lines(data, 0, 3), vec!["a", "b", "c"]);
}

#[test]
fn reads_past_the_end_are_empty() {
    let data = b"a\nb\nc\n";
    let index = LineOffsetIndex::from_bytes("f".to_string(), data);
    assert!(index.read_lines(data, 3, 1).is_empty());
    assert!(index.read_lines(data, 3, 0).is_empty());
    assert!(index.read_lines(data, 100, 5).is_empty());
    // A partially out-of-range request is clamped, not failed.
    assert_eq!(index.read_lines(data, 2, 10), vec!["c"]);
}

#[test]
fn invalid_bytes_decode_lossily() {
    let data = b"ok\n\xff\xfe bad\n";
    let index = LineOffsetIndex::from_bytes("f".to_string(), data);
    assert_eq!(index.get_total_lines(), 2);
    let lines = index.read_lines(data, 0, 2);
    assert_eq!(lines[0], "ok");
    assert_eq!(lines[1], "\u{FFFD}\u{FFFD} bad");
}

#[test]
fn missing_trailing_newline_keeps_last_line() {
    let data = b"a\nb";
    let index = LineOffsetIndex::from_bytes("f".to_string(), data);
    assert_eq!(index.get_total_lines(), 2);
    assert_eq!(index.read_lines(data, 0, 2), vec!["a", "b"]);
}

#[test]
fn empty_file_has_one_empty_line() {
    let data = b"";
    let index = LineOffsetIndex::from_bytes("f".to_string(), data);
    assert_eq!(index.get_total_lines(), 1);
    assert_eq!(index.read_lines(data, 0, 1), vec![""]);
}

#[test]
fn lone_newline_is_one_empty_line() {
    let data = b"\n";
    let index = LineOffsetIndex::from_bytes("f".to_string(), data);
    assert_eq!(index.get_total_lines(), 1);
    assert_eq!(index.read_lines(data, 0, 1), vec![""]);
}

#[test]
fn crlf_terminators_are_stripped_once() {
    let data = b"a\r\nb\r\n";
    let index = LineOffsetIndex::from_bytes("f".to_string(), data);
    assert_eq!(index.get_total_lines(), 2);
    assert_eq!(index.read_lines(data, 0, 2), vec!["a", "b"]);
}

#[test]
fn chunked_feeding_matches_whole_scan() {
    let data = b"a\nbb\nccc\n";
    let mut sc = OffsetScanner::begin();
    sc.feed(b"a\nb");
    sc.feed(b"b\ncc");
    sc.feed(b"c\n");
    let index = sc.finish("f".to_string());
    assert_eq!(index.get_total_lines(), 3);
    assert_eq!(index.read_lines(data, 0, 3), vec!["a", "bb", "ccc"]);

    let whole = LineOffsetIndex::from_bytes("f".to_string(), data);
    assert_eq!(whole.get_total_lines(), 3);
}

#[test]
fn blank_interior_lines_are_kept() {
    let data = b"a\n\nb\n";
    let index = LineOffsetIndex::from_bytes("f".to_string(), data);
    assert_eq!(index.get_total_lines(), 3);
    assert_eq!(index.read_lines(data, 0, 3), vec!["a", "", "b"]);
}
