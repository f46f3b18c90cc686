//! Checks of the file buffer and the filename hygiene helpers.

use native_pdf_print::buffer::FileBuffer;
use native_pdf_print::paths::{sanitize_filename, strip_extended_prefix};

#[test]
fn test_sanitize_filename() {
    assert_eq!(sanitize_filename("normal-file_123.pdf"), "normal-file_123.pdf");
    assert_eq!(sanitize_filename("../../etc/passwd"), "etcpasswd");
    assert_eq!(sanitize_filename("file with spaces.pdf"), "filewithspaces.pdf");
    assert_eq!(sanitize_filename("file@#$%.pdf"), "file.pdf");
}

#[test]
fn test_line_indexing() {
    let content = b"line1\nline2\nline3".to_vec();
    let buffer = FileBuffer::new(content).unwrap();

    assert_eq!(buffer.line_offsets, vec![0, 6, 12]);
    assert_eq!(buffer.get_stats().line_count, 3);
}

#[test]
fn test_get_line_range() {
    let content = b"line1\nline2\nline3".to_vec();
    let buffer = FileBuffer::new(content).unwrap();

    let result = buffer.get_line_range(1, 2).unwrap();
    assert_eq!(result, "line1\nline2\n");

    let result = buffer.get_line_range(2, 3).unwrap();
    assert_eq!(result, "line2\nline3");
}

#[test]
fn line_range_rejects_bad_bounds() {
    let buffer = FileBuffer::new(b"one\ntwo".to_vec()).unwrap();
    assert_eq!(buffer.get_line_range(0, 1).unwrap_err(), "Line numbers are 1-indexed");
    assert_eq!(buffer.get_line_range(2, 1).unwrap_err(), "Invalid range: start 2 > end 1");
    assert_eq!(
        buffer.get_line_range(1, 3).unwrap_err(),
        "Line 3 out of range (file has 2 lines)"
    );
}

#[test]
fn stats_report_size_and_index_footprint() {
    let buffer = FileBuffer::new(b"a\nbb\nccc".to_vec()).unwrap();
    let stats = buffer.get_stats();
    assert_eq!(stats.size, 8);
    assert_eq!(stats.line_count, 3);
    assert_eq!(stats.index_size, 12);
}

#[test]
fn empty_content_has_no_lines() {
    let buffer = FileBuffer::new(Vec::new()).unwrap();
    assert_eq!(buffer.line_offsets, vec![0]);
    assert_eq!(buffer.get_stats().line_count, 0);
    assert!(buffer.get_line_range(1, 1).is_err());
}

#[test]
fn extended_prefixes_strip_off() {
    assert_eq!(strip_extended_prefix("\\\\?\\C:\\temp\\doc.pdf"), "C:\\temp\\doc.pdf");
    assert_eq!(strip_extended_prefix("//?/C:/temp/doc.pdf"), "C:/temp/doc.pdf");
    assert_eq!(strip_extended_prefix("/plain/path.pdf"), "/plain/path.pdf");
}

#[test]
fn test_validate_json() {
    let valid_json = br#"{"name": "test", "value": 123}"#.to_vec();
    let buffer = FileBuffer::new(valid_json).unwrap();
    assert!(buffer.validate_json().is_ok());

    let invalid_json = b"{invalid}".to_vec();
    let buffer = FileBuffer::new(invalid_json).unwrap();
    assert!(buffer.validate_json().is_err());
}
