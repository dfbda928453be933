use button_scan::error::Error;
use button_scan::locate::locate_target_address;
use button_scan::pattern::{PatByte, Pattern};
use button_scan::resolve::resolve_target;
use button_scan::scan::scan;

#[test]
fn parse_mixed_notation() {
    let p = Pattern::parse(b"48 8D 15 ?? ?? ?? ?? 66 44 89").unwrap();
    assert_eq!(p.len(), 10);
    assert_eq!(p.matcher_at(0), PatByte::Exact(0x48));
    assert_eq!(p.matcher_at(1), PatByte::Exact(0x8D));
    assert_eq!(p.matcher_at(2), PatByte::Exact(0x15));
    assert_eq!(p.matcher_at(3), PatByte::Wildcard);
    assert_eq!(p.matcher_at(6), PatByte::Wildcard);
    assert_eq!(p.matcher_at(7), PatByte::Exact(0x66));
    assert_eq!(p.matcher_at(9), PatByte::Exact(0x89));
}

#[test]
fn parse_single_question_wildcard() {
    let p = Pattern::parse(b"48 ? ab").unwrap();
    assert_eq!(p.len(), 3);
    assert_eq!(p.matcher_at(0), PatByte::Exact(0x48));
    assert_eq!(p.matcher_at(1), PatByte::Wildcard);
    assert_eq!(p.matcher_at(2), PatByte::Exact(0xAB));
}

#[test]
fn parse_hex_case_and_spacing() {
    let p = Pattern::parse(b"  aB  0f ").unwrap();
    assert_eq!(p.len(), 2);
    assert_eq!(p.matcher_at(0), PatByte::Exact(0xAB));
    assert_eq!(p.matcher_at(1), PatByte::Exact(0x0F));
}

#[test]
fn parse_rejects_bad_notation() {
    assert!(Pattern::parse(b"").is_none());
    assert!(Pattern::parse(b"   ").is_none());
    assert!(Pattern::parse(b"4").is_none());
    assert!(Pattern::parse(b"4 8").is_none());
    assert!(Pattern::parse(b"GG").is_none());
    assert!(Pattern::parse(b"48?").is_none());
    assert!(Pattern::parse(b"???").is_none());
    assert!(Pattern::parse(b"123").is_none());
}

#[test]
fn from_matchers_rejects_empty() {
    assert!(Pattern::from_matchers(Vec::new()).is_none());
    let p = Pattern::from_matchers(vec![PatByte::Exact(1), PatByte::Wildcard]).unwrap();
    assert_eq!(p.len(), 2);
}

#[test]
fn all_wildcards_match_at_zero() {
    let p = Pattern::parse(b"?? ?? ??").unwrap();
    let buf = vec![9u8, 9, 9, 9];
    assert_eq!(scan(&buf, &p), Ok(0));
}

#[test]
fn missing_pattern_is_not_found() {
    let p = Pattern::parse(b"AA BB").unwrap();
    let buf = vec![0u8, 1, 2, 3, 4, 5, 0xAA, 0xAA, 0xBC];
    assert_eq!(scan(&buf, &p), Err(Error::PatternNotFound));
}

#[test]
fn scan_returns_first_match() {
    let p = Pattern::parse(b"01 02").unwrap();
    let buf = vec![0u8, 1, 2, 1, 2];
    assert_eq!(scan(&buf, &p), Ok(1));
}

#[test]
fn scan_wildcard_in_middle() {
    let p = Pattern::parse(b"01 ?? 03").unwrap();
    assert_eq!(scan(&vec![1u8, 2, 3], &p), Ok(0));
    assert_eq!(scan(&vec![0u8, 1, 9, 3], &p), Ok(1));
}

#[test]
fn scan_pattern_longer_than_buffer() {
    let p = Pattern::parse(b"01 02 03").unwrap();
    assert_eq!(scan(&vec![1u8, 2], &p), Err(Error::PatternNotFound));
}

#[test]
fn resolver_adds_displacement_after_instruction() {
    // displacement field starts 3 bytes into the match; instruction is 7
    // bytes long; displacement is 0x20: the target is
    // base + match offset + instruction length + displacement
    let mut buf = vec![0u8; 32];
    buf[13] = 0x20;
    assert_eq!(resolve_target(&buf, 10, 3, 7, 0x1000), Ok(0x1000 + 10 + 7 + 0x20));
}

#[test]
fn resolver_negative_displacement() {
    // -4 as little-endian two's complement
    let buf = vec![0xFCu8, 0xFF, 0xFF, 0xFF];
    assert_eq!(resolve_target(&buf, 0, 0, 4, 0x1000), Ok(0x1000));
}

#[test]
fn resolver_wraps_around_address_space() {
    let buf = vec![0x02u8, 0, 0, 0];
    assert_eq!(resolve_target(&buf, 0, 0, 0, u64::MAX), Ok(1));
}

#[test]
fn resolver_truncated_match() {
    let buf = vec![0u8; 8];
    assert_eq!(resolve_target(&buf, 6, 0, 4, 0), Err(Error::TruncatedMatch));
    assert_eq!(resolve_target(&buf, 0, 5, 4, 0), Err(Error::TruncatedMatch));
    assert_eq!(resolve_target(&vec![], 0, 0, 0, 0), Err(Error::TruncatedMatch));
}

#[test]
fn locate_finds_and_resolves() {
    // pattern at offset 5, displacement 0x0100 at 3 bytes into the match,
    // instruction length 7: target = 0x4000 + 5 + 7 + 0x100
    let p = Pattern::parse(b"48 8D 15 ?? ?? ?? ?? 66").unwrap();
    let mut buf = vec![0u8; 24];
    buf[5] = 0x48;
    buf[6] = 0x8D;
    buf[7] = 0x15;
    buf[8] = 0x00;
    buf[9] = 0x01;
    buf[12] = 0x66;
    assert_eq!(locate_target_address(&buf, &p, 0x4000, 3, 7), Ok(0x4000 + 5 + 7 + 0x100));
}

#[test]
fn locate_reports_missing_pattern() {
    let p = Pattern::parse(b"48 8D 15").unwrap();
    let buf = vec![0u8; 24];
    assert_eq!(locate_target_address(&buf, &p, 0x4000, 3, 7), Err(Error::PatternNotFound));
}

#[test]
fn locate_reports_truncated_match() {
    // the match sits at the very end: no room for the displacement field
    let p = Pattern::parse(b"48 8D").unwrap();
    let mut buf = vec![0u8; 8];
    buf[6] = 0x48;
    buf[7] = 0x8D;
    assert_eq!(locate_target_address(&buf, &p, 0x4000, 3, 7), Err(Error::TruncatedMatch));
}
