use mipcmanager_patch::x64_trampoline::{build_trampoline, ReplaceEntry, IAT_DISP_OFFSET};

fn fixture() -> Vec<ReplaceEntry> {
    vec![
        ReplaceEntry { offset: 100, verify: b"TUF B360M".to_vec(), replace: b"TM2424\0\0".to_vec() },
        ReplaceEntry {
            offset: 200,
            verify: b"System manufacturer\0".to_vec(),
            replace: b"XIAOMI\0\0\0\0\0\0\0\0\0\0".to_vec(),
        },
    ]
}

#[test]
fn trampoline_is_non_empty() {
    let tc = build_trampoline(0x8DF600, &fixture());
    assert!(!tc.bytes.is_empty());
    assert!(tc.bytes.len() > 100);
}

#[test]
fn trampoline_starts_with_push_rbx() {
    let tc = build_trampoline(0x1000, &fixture());
    assert_eq!(tc.bytes[0], 0x53);
}

#[test]
fn iat_disp_offset_is_within_range() {
    let tc = build_trampoline(0x5000, &fixture());
    assert!(tc.iat_disp_byte_offset > 0);
    assert!(tc.iat_disp_byte_offset + 4 <= tc.bytes.len());
}

#[test]
fn iat_disp_encodes_target() {
    let iat_rva = 0x8DF600u32;
    let trampoline_rva = 0xE67000u32;
    let tc = build_trampoline(iat_rva, &fixture());

    let mut bytes = tc.bytes;
    let next_rip = trampoline_rva + tc.iat_disp_byte_offset as u32 + 7;
    let correct_disp = (iat_rva as i64) - (next_rip as i64);
    bytes[tc.iat_disp_byte_offset..tc.iat_disp_byte_offset + 4].copy_from_slice(&(correct_disp as i32).to_le_bytes());

    let stored = i32::from_le_bytes(bytes[tc.iat_disp_byte_offset..tc.iat_disp_byte_offset + 4].try_into().unwrap());
    assert_eq!(stored, correct_disp as i32);
}

#[test]
fn trampoline_length_and_layout() {
    // Header 72 + epilogue 15; per entry 7 + 10 per checked byte + 4 per stored byte.
    let tc = build_trampoline(0x5000, &fixture());
    assert_eq!(tc.bytes.len(), 72 + 15 + (7 + 14 * 9) + (7 + 14 * 20));
    assert_eq!(tc.iat_disp_byte_offset, IAT_DISP_OFFSET);
    assert_eq!(&tc.bytes[tc.bytes.len() - 15..], &[0x4C, 0x89, 0xE0, 0x48, 0x83, 0xC4, 0x28, 0x41, 0x5D, 0x41, 0x5C, 0x5F, 0x5E, 0x5B, 0xC3]);
    // The placeholder displacement reaches the IAT slot from RVA 0.
    let disp = u32::from_le_bytes(tc.bytes[23..27].try_into().unwrap());
    assert_eq!(disp, 0x5000 - 27);
}

#[test]
fn guard_jumps_land_on_the_epilogue() {
    let tc = build_trampoline(0x5000, &fixture());
    let done = tc.bytes.len() - 15;
    for (at, next) in [(48usize, 52usize), (60, 64), (68, 72)] {
        let disp = i32::from_le_bytes(tc.bytes[at..at + 4].try_into().unwrap());
        assert_eq!(next as i64 + disp as i64, done as i64);
    }
}

#[test]
fn mismatching_byte_skips_to_the_end_of_its_block() {
    let entries = vec![ReplaceEntry { offset: 5, verify: b"AB".to_vec(), replace: b"CD".to_vec() }];
    let tc = build_trampoline(0, &entries);
    let b = &tc.bytes;
    // Block starts at 72: lea rcx,[rdi+5].
    assert_eq!(&b[72..79], &[0x48, 0x8D, 0x8F, 5, 0, 0, 0]);
    assert_eq!(&b[79..83], &[0x80, 0x79, 0, b'A']);
    let block_end = 72 + 7 + 20 + 8;
    let disp1 = i32::from_le_bytes(b[85..89].try_into().unwrap());
    assert_eq!(89 + disp1 as i64, block_end as i64);
    assert_eq!(&b[99..103], &[0xC6, 0x41, 0, b'C']);
}

#[test]
fn far_offsets_use_32_bit_displacements() {
    let entries = vec![ReplaceEntry { offset: 0, verify: vec![7u8; 130], replace: vec![9u8; 130] }];
    let tc = build_trampoline(0, &entries);
    assert_eq!(tc.bytes.len(), 72 + 15 + 7 + (1280 + 13 * 2) + (512 + 7 * 2));
    // Check of byte 128: cmp byte [rcx+128], 7
    let at = 72 + 7 + 1280;
    assert_eq!(&tc.bytes[at..at + 7], &[0x80, 0xB9, 128, 0, 0, 0, 7]);
}

#[test]
fn short_replacements_are_completed_with_nul() {
    let entries = vec![ReplaceEntry { offset: 0, verify: b"ABC".to_vec(), replace: b"X".to_vec() }];
    let tc = build_trampoline(0, &entries);
    let stores = 72 + 7 + 30;
    assert_eq!(&tc.bytes[stores..stores + 12], &[0xC6, 0x41, 0, b'X', 0xC6, 0x41, 1, 0, 0xC6, 0x41, 2, 0]);
}
