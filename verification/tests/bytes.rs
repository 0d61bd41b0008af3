use mipcmanager_patch::infra::bytes::{find_bytes, locate_single_byte, LocateError};

#[test]
fn find_bytes_basic() {
    assert_eq!(find_bytes(b"abcdef", b"cd"), Some(2));
    assert_eq!(find_bytes(b"abcdef", b"xyz"), None);
}

#[test]
fn find_bytes_empty_needle() {
    assert_eq!(find_bytes(b"abc", b""), None);
}

#[test]
fn find_bytes_needle_longer_than_haystack() {
    assert_eq!(find_bytes(b"ab", b"abc"), None);
}

#[test]
fn find_bytes_needle_at_start() {
    assert_eq!(find_bytes(b"abc", b"ab"), Some(0));
}

#[test]
fn find_bytes_needle_at_end() {
    assert_eq!(find_bytes(b"abc", b"bc"), Some(1));
}

#[test]
fn find_bytes_haystack_empty() {
    assert_eq!(find_bytes(b"", b"a"), None);
}

#[test]
fn find_bytes_reports_the_first_of_several() {
    assert_eq!(find_bytes(b"xabxab", b"ab"), Some(1));
}

#[test]
fn locate_single_byte_finds_unique() {
    let data = vec![0x01, 0x02, 0x47, 0x03, 0x04];
    let idx = locate_single_byte(&data, &[0x01, 0x02], &[0x03, 0x04], &[0x47, 0x06]).unwrap();
    assert_eq!(idx, 2);
}

#[test]
fn locate_single_byte_zero_match() {
    let data = vec![0x01, 0x02, 0x99, 0x03, 0x04];
    let result = locate_single_byte(&data, &[0x01, 0x02], &[0x03, 0x04], &[0x47, 0x06]);
    assert!(result.is_err());
    assert_eq!(result, Err(LocateError::NotFound));
}

#[test]
fn locate_single_byte_multiple_matches() {
    let data = vec![0x01, 0x02, 0x47, 0x03, 0x04, 0x01, 0x02, 0x06, 0x03, 0x04];
    let result = locate_single_byte(&data, &[0x01, 0x02], &[0x03, 0x04], &[0x47, 0x06]);
    assert!(result.is_err());
    assert_eq!(result, Err(LocateError::NotUnique));
}

#[test]
fn locate_single_byte_haystack_too_small() {
    let data = vec![0x01, 0x02];
    let result = locate_single_byte(&data, &[0x01, 0x02], &[0x03, 0x04], &[0x47]);
    assert!(result.is_err());
    assert_eq!(result, Err(LocateError::BufferTooSmall));
}

#[test]
fn locate_single_byte_single_candidate() {
    let data = vec![0xAA, 0xFF, 0xBB];
    let idx = locate_single_byte(&data, &[0xAA], &[0xBB], &[0xFF]).unwrap();
    assert_eq!(idx, 1);
}
