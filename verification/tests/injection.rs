use mipcmanager_patch::dotnet::metadata::{find_method, try_find_method, MetadataError, MethodLocation};
use mipcmanager_patch::dotnet::method_body::{build_guard, MethodBody};
use mipcmanager_patch::dotnet::pe::{PeError, PeImage};
use mipcmanager_patch::dotnet::{inject_guard_return, InjectError, InjectOutcome};

fn put16(d: &mut [u8], o: usize, v: u16) {
    d[o..o + 2].copy_from_slice(&v.to_le_bytes());
}

fn put32(d: &mut [u8], o: usize, v: u32) {
    d[o..o + 4].copy_from_slice(&v.to_le_bytes());
}

const PE: usize = 0x80;
const OPT: usize = PE + 24;
const TABLE: usize = OPT + 0xF0;
const MOFF: usize = 0x250;
const TILDE: usize = MOFF + 0x40;
const TYPEDEFS: usize = TILDE + 32;
const METHODS: usize = TYPEDEFS + 28;
const STRINGS: usize = MOFF + 0xA8;

/// A PE32+ .NET image: one `.text` section (RVA 0x1000, raw 0x200..0x400)
/// holding the CLI header, a metadata root with `#~` and `#Strings`, two
/// types (`Other` with `Show`, `CameraToast` with `get_IsEnabled` and
/// `ShowToast`) and two tiny method bodies.
fn dotnet_image() -> Vec<u8> {
    let mut d = vec![0u8; 0x400];
    d[0] = b'M';
    d[1] = b'Z';
    put32(&mut d, 0x3C, PE as u32);
    d[PE..PE + 4].copy_from_slice(b"PE\0\0");
    put16(&mut d, PE + 4, 0x8664);
    put16(&mut d, PE + 6, 1);
    put16(&mut d, PE + 20, 0xF0);
    put16(&mut d, OPT, 0x20B);
    put32(&mut d, OPT + 32, 0x1000);
    put32(&mut d, OPT + 36, 0x200);
    put32(&mut d, OPT + 56, 0x2000);
    put32(&mut d, OPT + 60, 0x200);
    put32(&mut d, OPT + 108, 16);
    put32(&mut d, OPT + 112 + 14 * 8, 0x1000);
    put32(&mut d, OPT + 112 + 14 * 8 + 4, 0x48);
    d[TABLE..TABLE + 5].copy_from_slice(b".text");
    put32(&mut d, TABLE + 8, 0x100);
    put32(&mut d, TABLE + 12, 0x1000);
    put32(&mut d, TABLE + 16, 0x200);
    put32(&mut d, TABLE + 20, 0x200);
    put32(&mut d, TABLE + 36, 0x6000_0020);
    // CLI header
    put32(&mut d, 0x200, 0x48);
    put32(&mut d, 0x208, 0x1000 + (MOFF - 0x200) as u32);
    put32(&mut d, 0x20C, 0x100);
    // metadata root
    d[MOFF..MOFF + 4].copy_from_slice(b"BSJB");
    put16(&mut d, MOFF + 4, 1);
    put16(&mut d, MOFF + 6, 1);
    put32(&mut d, MOFF + 12, 12);
    d[MOFF + 16..MOFF + 26].copy_from_slice(b"v4.0.30319");
    put16(&mut d, MOFF + 30, 2);
    put32(&mut d, MOFF + 32, 0x40);
    put32(&mut d, MOFF + 36, 0x68);
    d[MOFF + 40..MOFF + 42].copy_from_slice(b"#~");
    put32(&mut d, MOFF + 44, 0xA8);
    put32(&mut d, MOFF + 48, 0x30);
    d[MOFF + 52..MOFF + 60].copy_from_slice(b"#Strings");
    // #~ header: TypeDef (2) and MethodDef (6) present
    d[TILDE + 4] = 2;
    d[TILDE + 7] = 1;
    put32(&mut d, TILDE + 8, 0x44);
    put32(&mut d, TILDE + 24, 2);
    put32(&mut d, TILDE + 28, 3);
    // TypeDef rows: flags, name, namespace, extends, field list, method list
    put16(&mut d, TYPEDEFS + 4, 13);
    put16(&mut d, TYPEDEFS + 10, 1);
    put16(&mut d, TYPEDEFS + 12, 1);
    put16(&mut d, TYPEDEFS + 14 + 4, 1);
    put16(&mut d, TYPEDEFS + 14 + 10, 1);
    put16(&mut d, TYPEDEFS + 14 + 12, 2);
    // MethodDef rows: rva, impl flags, flags, name, signature, param list
    put32(&mut d, METHODS, 0);
    put16(&mut d, METHODS + 8, 19);
    put32(&mut d, METHODS + 14, 0x1180);
    put16(&mut d, METHODS + 14 + 8, 24);
    put32(&mut d, METHODS + 28, 0x1190);
    put16(&mut d, METHODS + 28 + 8, 38);
    // #Strings
    let strings = b"\0CameraToast\0Other\0Show\0get_IsEnabled\0ShowToast\0";
    d[STRINGS..STRINGS + strings.len()].copy_from_slice(strings);
    // bodies: get_IsEnabled = ldc.i4.1; ret, ShowToast = nop; nop; ret
    d[0x380..0x383].copy_from_slice(&[0x0A, 0x17, 0x2A]);
    d[0x390..0x394].copy_from_slice(&[0x0E, 0x00, 0x00, 0x2A]);
    d
}

fn image() -> PeImage {
    PeImage::parse(dotnet_image()).ok().unwrap()
}

#[test]
fn the_metadata_root_is_found_through_the_cli_header() {
    assert_eq!(image().metadata_root_offset().ok(), Some(MOFF));
}

#[test]
fn methods_are_found_by_type_and_name_suffix() {
    let pe = image();
    assert_eq!(
        find_method(&pe, "CameraToast", "Toast"),
        Ok(MethodLocation { body_rva: 0x1190, rva_field_offset: METHODS + 28 })
    );
    assert_eq!(
        find_method(&pe, "CameraToast", "IsEnabled"),
        Ok(MethodLocation { body_rva: 0x1180, rva_field_offset: METHODS + 14 })
    );
    assert_eq!(find_method(&pe, "CameraToast", "Show"), Err(MetadataError::MethodNotFound));
    assert_eq!(find_method(&pe, "Other", "Show"), Err(MetadataError::NoMethodBody));
    assert_eq!(find_method(&pe, "Camera", "Toast"), Err(MetadataError::TypeNotFound));
    assert_eq!(try_find_method(&pe, "CameraToast", "Toast"), Some(find_method(&pe, "CameraToast", "Toast")));
}

#[test]
fn images_without_metadata_are_refused() {
    let mut d = dotnet_image();
    put32(&mut d, OPT + 112 + 14 * 8, 0);
    let pe = PeImage::parse(d).ok().unwrap();
    assert_eq!(find_method(&pe, "CameraToast", "Toast"), Err(MetadataError::Image(PeError::NotDotNet)));
    let mut d = dotnet_image();
    d[MOFF] = b'X';
    let pe = PeImage::parse(d).ok().unwrap();
    assert_eq!(find_method(&pe, "CameraToast", "Toast"), Err(MetadataError::Image(PeError::MissingMetadataSignature)));
    let mut d = dotnet_image();
    d[MOFF + 53] = b'X';
    let pe = PeImage::parse(d).ok().unwrap();
    assert_eq!(find_method(&pe, "CameraToast", "Toast"), Err(MetadataError::MissingStringsHeap));
}

#[test]
fn injection_guards_the_method_once() {
    let mut pe = image();
    let r = inject_guard_return(&mut pe, "CameraToast", "Toast", 1, 0, ".mipcm");
    assert_eq!(r, Ok(InjectOutcome::Patched));
    assert_eq!(pe.num_sections, 2);
    let loc = find_method(&pe, "CameraToast", "Toast").unwrap();
    assert_eq!(loc.body_rva, 0x2000);
    let off = pe.rva_to_offset(loc.body_rva).unwrap();
    let body = MethodBody::parse(&pe.data, off).ok().unwrap();
    assert_eq!(body.il, [build_guard(1, 0), vec![0x00, 0x00, 0x2A]].concat());
    assert_eq!(&pe.data[0x390..0x394], &[0x0E, 0x00, 0x00, 0x2A]);
    let once = pe.data.clone();
    let r = inject_guard_return(&mut pe, "CameraToast", "Toast", 1, 0, ".mipcm");
    assert_eq!(r, Ok(InjectOutcome::AlreadyPatched));
    assert_eq!(pe.data, once);
}

#[test]
fn injection_reports_why_it_could_not_run() {
    let mut pe = image();
    let before = pe.data.clone();
    assert_eq!(
        inject_guard_return(&mut pe, "CameraToast", "Nothing", 1, 0, ".mipcm"),
        Err(InjectError::Metadata(MetadataError::MethodNotFound))
    );
    assert_eq!(pe.data, before);
    let mut d = dotnet_image();
    put32(&mut d, METHODS + 28, 0x5000);
    let mut pe = PeImage::parse(d).ok().unwrap();
    assert_eq!(
        inject_guard_return(&mut pe, "CameraToast", "Toast", 1, 0, ".mipcm"),
        Err(InjectError::BodyUnmapped(0x5000))
    );
    let mut d = dotnet_image();
    d[0x390] = 0x00;
    let mut pe = PeImage::parse(d).ok().unwrap();
    assert!(matches!(
        inject_guard_return(&mut pe, "CameraToast", "Toast", 1, 0, ".mipcm"),
        Err(InjectError::Body(_))
    ));
}

#[test]
fn the_camera_patch_targets_its_own_callback() {
    let mut pe = image();
    let before = pe.data.clone();
    assert_eq!(
        mipcmanager_patch::camera_toast::apply(&mut pe),
        Err(InjectError::Metadata(MetadataError::TypeNotFound))
    );
    assert_eq!(pe.data, before);
}
