use mipcmanager_patch::dotnet::method_body::{build_guard, EhClause, MethodBody, MethodBodyError};
use mipcmanager_patch::dotnet::pe::{align_up, PeError, PeImage};
use mipcmanager_patch::dotnet::IL_SECTION_CHARACTERISTICS;

fn put16(d: &mut [u8], o: usize, v: u16) {
    d[o..o + 2].copy_from_slice(&v.to_le_bytes());
}

fn put32(d: &mut [u8], o: usize, v: u32) {
    d[o..o + 4].copy_from_slice(&v.to_le_bytes());
}

fn get32(d: &[u8], o: usize) -> u32 {
    u32::from_le_bytes([d[o], d[o + 1], d[o + 2], d[o + 3]])
}

const PE: usize = 0x80;
const OPT: usize = PE + 24;
const TABLE: usize = OPT + 0xF0;

/// A PE32+ image with one section `.text` (RVA 0x1000, raw 0x200..0x400).
fn small_image() -> Vec<u8> {
    let mut d = vec![0u8; 0x400];
    d[0] = b'M';
    d[1] = b'Z';
    put32(&mut d, 0x3C, PE as u32);
    d[PE..PE + 4].copy_from_slice(b"PE\0\0");
    put16(&mut d, PE + 4, 0x8664);
    put16(&mut d, PE + 6, 1);
    put16(&mut d, PE + 20, 0xF0);
    put16(&mut d, OPT, 0x20B);
    put32(&mut d, OPT + 32, 0x1000);
    put32(&mut d, OPT + 36, 0x200);
    put32(&mut d, OPT + 56, 0x2000);
    put32(&mut d, OPT + 60, 0x200);
    put32(&mut d, OPT + 108, 16);
    d[TABLE..TABLE + 5].copy_from_slice(b".text");
    put32(&mut d, TABLE + 8, 0x100);
    put32(&mut d, TABLE + 12, 0x1000);
    put32(&mut d, TABLE + 16, 0x200);
    put32(&mut d, TABLE + 20, 0x200);
    put32(&mut d, TABLE + 36, 0x6000_0020);
    for (i, b) in d[0x200..0x300].iter_mut().enumerate() {
        *b = i as u8;
    }
    d
}

#[test]
fn headers_of_a_pe32_plus_image() {
    let pe = PeImage::parse(small_image()).ok().unwrap();
    assert_eq!((pe.coff_offset, pe.opt_offset, pe.section_table_offset, pe.num_sections), (PE + 4, OPT, TABLE, 1));
    assert_eq!(pe.file_alignment(), 0x200);
    assert_eq!(pe.section_alignment(), 0x1000);
    assert_eq!(pe.size_of_headers(), 0x200);
    let s = pe.section(0);
    assert_eq!((s.virtual_size, s.virtual_address, s.raw_size, s.raw_pointer), (0x100, 0x1000, 0x200, 0x200));
    assert_eq!(pe.rva_to_offset(0x1010), Some(0x210));
    assert_eq!(pe.rva_to_offset(0x11FF), Some(0x3FF));
    assert_eq!(pe.rva_to_offset(0x1200), None);
    assert_eq!(pe.rva_to_offset(0x0FFF), None);
    assert_eq!(pe.data_directory(14), (0, 0));
    assert_eq!(pe.metadata_root_offset().err(), Some(PeError::NotDotNet));
}

#[test]
fn images_that_are_not_pe32_plus_are_refused() {
    assert_eq!(PeImage::parse(vec![0u8; 0x40]).err(), Some(PeError::TooSmall));
    let mut d = small_image();
    d[0] = b'X';
    assert_eq!(PeImage::parse(d).err(), Some(PeError::MissingMz));
    let mut d = small_image();
    d[PE + 1] = b'X';
    assert_eq!(PeImage::parse(d).err(), Some(PeError::MissingPeSignature));
    let mut d = small_image();
    put16(&mut d, OPT, 0x10B);
    assert_eq!(PeImage::parse(d).err(), Some(PeError::NotPe32Plus(0x10B)));
}

#[test]
fn an_appended_section_holds_its_payload_at_its_rva() {
    let mut pe = PeImage::parse(small_image()).ok().unwrap();
    let payload = [1u8, 2, 3, 4, 5];
    let va = pe.append_section(".mipcm", &payload, IL_SECTION_CHARACTERISTICS).ok().unwrap();
    assert_eq!(va, 0x2000);
    assert_eq!(pe.num_sections, 2);
    assert_eq!(pe.data.len(), 0x600);
    let s = pe.section(1);
    assert_eq!((s.virtual_size, s.virtual_address, s.raw_size, s.raw_pointer), (5, 0x2000, 0x200, 0x400));
    assert_eq!(&pe.data[TABLE + 40..TABLE + 48], b".mipcm\0\0");
    assert_eq!(get32(&pe.data, TABLE + 40 + 36), 0x6000_0020);
    let off = pe.rva_to_offset(va).unwrap();
    assert_eq!(off, 0x400);
    assert_eq!(&pe.data[off..off + 5], &payload);
    assert!(pe.data[off + 5..].iter().all(|b| *b == 0));
    assert_eq!(get32(&pe.data, OPT + 56), 0x3000);
    assert_eq!(pe.data[0x210], 0x10);
    let reparsed = PeImage::parse(pe.data.clone()).ok().unwrap();
    assert_eq!(reparsed.num_sections, 2);
}

#[test]
fn the_checksum_is_stable_once_written() {
    let mut pe = PeImage::parse(small_image()).ok().unwrap();
    pe.update_checksum();
    let sum = get32(&pe.data, OPT + 64);
    assert_ne!(sum, 0);
    let once = pe.data.clone();
    pe.update_checksum();
    assert_eq!(pe.data, once);
    pe.write_u32_at(0x300, 0xDEAD_BEEF);
    pe.update_checksum();
    assert_ne!(get32(&pe.data, OPT + 64), sum);
}

#[test]
fn appending_needs_alignment_and_header_room() {
    let mut d = small_image();
    put32(&mut d, OPT + 36, 0);
    let mut pe = PeImage::parse(d).ok().unwrap();
    assert_eq!(pe.append_section(".x", &[1], 0).err(), Some(PeError::InvalidAlignment));
    let mut d = small_image();
    put32(&mut d, OPT + 60, (TABLE + 40) as u32);
    let mut pe = PeImage::parse(d.clone()).ok().unwrap();
    assert_eq!(pe.append_section(".x", &[1], 0).err(), Some(PeError::NoRoomForSectionHeader));
    assert_eq!(pe.data, d);
}

#[test]
fn alignment_rounds_up() {
    assert_eq!(align_up(0, 0x200), 0);
    assert_eq!(align_up(1, 0x200), 0x200);
    assert_eq!(align_up(0x200, 0x200), 0x200);
    assert_eq!(align_up(0x1201, 0x1000), 0x2000);
}

#[test]
fn guard_encodings() {
    assert_eq!(build_guard(1, 0), vec![0x03, 0x16, 0x33, 0x01, 0x2A]);
    assert_eq!(build_guard(4, -1), vec![0x0E, 0x04, 0x15, 0x33, 0x01, 0x2A]);
    assert_eq!(build_guard(0, -5), vec![0x02, 0x1F, 0xFB, 0x33, 0x01, 0x2A]);
    assert_eq!(build_guard(2, 1000), vec![0x04, 0x20, 0xE8, 0x03, 0x00, 0x00, 0x33, 0x01, 0x2A]);
}

#[test]
fn a_tiny_body_gains_a_guard_and_a_fat_header() {
    let data = [0xAAu8, 0x0E, 0x00, 0x00, 0x2A];
    let body = MethodBody::parse(&data, 1).ok().unwrap();
    assert_eq!((body.max_stack, body.local_var_sig_tok, body.init_locals), (8, 0, false));
    assert_eq!(body.il, vec![0x00, 0x00, 0x2A]);
    let out = body.build_with_guard(1, 0);
    assert_eq!(
        out,
        vec![0x03, 0x30, 0x08, 0x00, 0x08, 0x00, 0x00, 0x00, 0x00, 0x00, 0x00, 0x00, 0x03, 0x16, 0x33, 0x01, 0x2A, 0x00, 0x00, 0x2A]
    );
    let again = MethodBody::parse(&out, 0).ok().unwrap();
    assert_eq!(again.il, [build_guard(1, 0), body.il.clone()].concat());
    assert_eq!(again.max_stack, 8);
}

fn fat_body_with_clause() -> Vec<u8> {
    let mut d = vec![0u8; 32];
    put16(&mut d, 0, 0x301B);
    put16(&mut d, 2, 1);
    put32(&mut d, 4, 4);
    put32(&mut d, 8, 0x1100_0001);
    d[12..16].copy_from_slice(&[0x00, 0x00, 0x00, 0x2A]);
    d[16] = 0x01;
    d[17] = 16;
    put16(&mut d, 20, 0);
    put16(&mut d, 22, 0);
    d[24] = 2;
    put16(&mut d, 25, 2);
    d[27] = 2;
    put32(&mut d, 28, 0x0100_0005);
    d
}

#[test]
fn a_fat_body_keeps_its_clauses_behind_the_guard() {
    let data = fat_body_with_clause();
    let body = MethodBody::parse(&data, 0).ok().unwrap();
    assert_eq!((body.max_stack, body.local_var_sig_tok, body.init_locals), (1, 0x1100_0001, true));
    let clause = EhClause {
        flags: 0,
        try_offset: 0,
        try_length: 2,
        handler_offset: 2,
        handler_length: 2,
        class_token_or_filter: 0x0100_0005,
    };
    assert_eq!(body.eh_clauses, vec![clause]);
    let out = body.build_with_guard(0, 7);
    let again = MethodBody::parse(&out, 0).ok().unwrap();
    assert_eq!(again.max_stack, 2);
    assert!(again.init_locals);
    assert_eq!(again.local_var_sig_tok, 0x1100_0001);
    assert_eq!(again.il, vec![0x02, 0x1D, 0x33, 0x01, 0x2A, 0x00, 0x00, 0x00, 0x2A]);
    assert_eq!(
        again.eh_clauses,
        vec![EhClause { try_offset: 5, handler_offset: 7, ..clause }]
    );
}

#[test]
fn unknown_header_kinds_are_refused() {
    assert_eq!(MethodBody::parse(&[0x00, 0x2A], 0).err(), Some(MethodBodyError::UnknownHeaderKind));
    assert_eq!(MethodBody::parse(&[0x01, 0x2A], 0).err(), Some(MethodBodyError::UnknownHeaderKind));
}
