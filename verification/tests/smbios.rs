use mipcmanager_patch::smbios::{SmbiosError, SmbiosFieldRole, SmbiosTable};

/// A well-formed table: Type 0 with two strings, Type 1 (manufacturer at +4,
/// product at +5), Type 2, and the end-of-table structure.
fn make_fixture() -> Vec<u8> {
    let mut data = Vec::new();
    data.extend_from_slice(&[0, 4, 0, 0, b'A', 0, b'B', 0, 0]);
    let t1: [u8; 27] = [
        1, 0x1B, 0, 0, 1, 2, 0, 0, 0, 0, 0, 0, 0, 0, 0, 0, 0, 0, 0, 0, 0, 0, 0, 0, 0, 0, 0,
    ];
    data.extend_from_slice(&t1);
    data.extend_from_slice(b"System manufacturer\0");
    data.extend_from_slice(b"System Product Name\0");
    data.push(0);
    data.extend_from_slice(&[2, 8, 1, 0, 1, 2, 0, 0]);
    data.extend_from_slice(b"ASUSTeK COMPUTER INC.\0");
    data.extend_from_slice(b"TUF B360M-PLUS GAMING S\0");
    data.push(0);
    data.extend_from_slice(&[127, 4, 0, 0]);
    data
}

#[test]
fn extracts_all_fields() {
    let table = SmbiosTable::new(make_fixture());
    let fields = table.extract_fields().unwrap();
    assert_eq!(fields.len(), 4);

    assert_eq!(fields[0].role, SmbiosFieldRole::Type1Manufacturer);
    assert_eq!(fields[0].value, "System manufacturer");

    assert_eq!(fields[1].role, SmbiosFieldRole::Type1ProductName);
    assert_eq!(fields[1].value, "System Product Name");

    assert_eq!(fields[2].role, SmbiosFieldRole::Type2Manufacturer);
    assert_eq!(fields[2].value, "ASUSTeK COMPUTER INC.");

    assert_eq!(fields[3].role, SmbiosFieldRole::Type2Product);
    assert_eq!(fields[3].value, "TUF B360M-PLUS GAMING S");
}

#[test]
fn target_values() {
    let table = SmbiosTable::new(make_fixture());
    let fields = table.extract_fields().unwrap();
    let t2 = fields.iter().find(|f| f.role == SmbiosFieldRole::Type2Product).unwrap();
    assert_eq!(t2.role.target_value("TM2424"), "TM2424");
    let t1m = fields.iter().find(|f| f.role == SmbiosFieldRole::Type1Manufacturer).unwrap();
    assert_eq!(t1m.role.target_value("TM2424"), "XIAOMI");
}

#[test]
fn field_offsets_point_at_the_strings() {
    let raw = make_fixture();
    let table = SmbiosTable::new(raw.clone());
    let fields = table.extract_fields().unwrap();
    for f in &fields {
        let bytes = f.value.as_bytes();
        assert_eq!(&raw[f.offset..f.offset + bytes.len()], bytes);
    }
    assert_eq!(fields[0].offset, 36);
}

#[test]
fn product_names_of_known_models() {
    assert_eq!(SmbiosFieldRole::Type1ProductName.target_value("TM2424"), "Xiaomi Book Pro 14 2026");
    assert_eq!(SmbiosFieldRole::Type1ProductName.target_value("TM2309"), "Redmi Book 16 2024");
    assert_eq!(SmbiosFieldRole::Type1ProductName.target_value("TM9999"), "TM9999");
    assert_eq!(SmbiosFieldRole::Type2Manufacturer.target_value("TM9999"), "XIAOMI");
}

#[test]
fn a_table_without_system_or_board_strings_is_refused() {
    let table = SmbiosTable::new(vec![0, 4, 0, 0, b'A', 0, 0, 127, 4, 0, 0]);
    assert_eq!(table.extract_fields().unwrap_err(), SmbiosError::NoSystemOrBaseboardStrings);
    let empty = SmbiosTable::new(Vec::new());
    assert!(empty.extract_fields().is_err());
}

#[test]
fn the_end_of_table_structure_stops_the_walk() {
    let mut data = vec![127, 4, 0, 0, 0, 0];
    data.extend_from_slice(&[2, 8, 1, 0, 1, 2, 0, 0]);
    data.extend_from_slice(b"Vendor\0Board\0\0");
    let table = SmbiosTable::new(data);
    assert!(table.extract_fields().is_err());
}

#[test]
fn an_extra_nul_after_a_string_set_ends_the_walk() {
    // After `A\0B\0\0` one more NUL follows: it reads as a structure of type 0
    // with a header shorter than 4 bytes, which ends the walk.
    let mut data = vec![0, 4, 0, 0, b'A', 0, b'B', 0, 0, 0];
    data.extend_from_slice(&[2, 8, 1, 0, 1, 2, 0, 0]);
    data.extend_from_slice(b"Vendor\0Board\0\0");
    let table = SmbiosTable::new(data);
    assert_eq!(table.extract_fields().unwrap_err(), SmbiosError::NoSystemOrBaseboardStrings);
}
