//! Tests for the masked byte comparison and the window scan over a buffer.

use memscan::utils::{data_compare, scan_buffer};

#[test]
fn exact_mask_matches_equal_bytes() {
    assert!(data_compare(&[0x10, 0x20, 0x30], &[0x10, 0x20, 0x30], "xxx"));
}

#[test]
fn exact_mask_rejects_single_mismatch() {
    // Mutating any single exact-flagged position flips the result.
    assert!(data_compare(&[0x10, 0x20, 0x30], &[0x10, 0x20, 0x30], "xxx"));
    assert!(!data_compare(&[0x11, 0x20, 0x30], &[0x10, 0x20, 0x30], "xxx"));
    assert!(!data_compare(&[0x10, 0x21, 0x30], &[0x10, 0x20, 0x30], "xxx"));
    assert!(!data_compare(&[0x10, 0x20, 0x31], &[0x10, 0x20, 0x30], "xxx"));
}

#[test]
fn all_wildcards_match_any_content() {
    assert!(data_compare(&[0xAA, 0xBB, 0xCC], &[0x00, 0x01, 0x02], "???"));
    assert!(data_compare(&[0x00, 0x00, 0x00], &[0xFF, 0xFF, 0xFF], "???"));
}

#[test]
fn wildcard_positions_ignore_mismatches() {
    assert!(data_compare(&[0x10, 0x99, 0x30], &[0x10, 0x20, 0x30], "x?x"));
}

#[test]
fn short_data_never_matches() {
    assert!(!data_compare(&[0x10, 0x20], &[0x10, 0x20, 0x30], "???"));
    assert!(!data_compare(&[], &[0x10], "?"));
}

#[test]
fn short_pattern_never_matches() {
    assert!(!data_compare(&[0x10, 0x20, 0x30], &[0x10, 0x20], "xxx"));
}

#[test]
fn longer_data_matches_on_its_prefix() {
    assert!(data_compare(&[0x10, 0x20, 0x30, 0x40], &[0x10, 0x20, 0x30], "xxx"));
}

#[test]
fn scan_buffer_finds_first_occurrence() {
    let data = [0u8, 0xDE, 0xAD, 0x00, 0xDE, 0xAD, 0x00];
    assert_eq!(scan_buffer(&data, &[0xDE, 0xAD], "xx"), Some(1));
}

#[test]
fn scan_buffer_honours_wildcards() {
    let data = [0x01u8, 0xDE, 0x55, 0xBE, 0x02];
    assert_eq!(scan_buffer(&data, &[0xDE, 0x00, 0xBE], "x?x"), Some(1));
}

#[test]
fn scan_buffer_reports_absence() {
    let data = [0x01u8, 0x02, 0x03, 0x04];
    assert_eq!(scan_buffer(&data, &[0xDE, 0xAD], "xx"), None);
}

#[test]
fn scan_buffer_needs_room_for_the_window() {
    let data = [0xDEu8];
    assert_eq!(scan_buffer(&data, &[0xDE, 0xAD], "xx"), None);
}
