use mipcmanager_patch::locale_spoof::{patch_bytes, LocaleError, PatchOutcome};

const ANCHOR_GEO: &[u8] = &[0x47, 0x00, 0x65, 0x00, 0x6F, 0x00, 0x00, 0x00];
const ORIG_NAME: &[u8] = &[0x4E, 0x00, 0x61, 0x00, 0x6D, 0x00, 0x65, 0x00, 0x00, 0x00];
const PATCHED_NAME: &[u8] = &[0x58, 0x00, 0x43, 0x00, 0x4E, 0x00, 0x00, 0x00, 0x00, 0x00];

#[test]
fn patch_then_idempotent() {
    let mut buf = vec![0xAB; 4];
    buf.extend_from_slice(ANCHOR_GEO);
    buf.extend_from_slice(ORIG_NAME);
    buf.extend_from_slice(&[0xCD; 4]);
    let snapshot_len = buf.len();

    assert_eq!(patch_bytes(&mut buf).unwrap(), PatchOutcome::Patched);
    assert_eq!(buf.len(), snapshot_len, "the patch keeps the length");
    let name_at = 4 + ANCHOR_GEO.len();
    assert_eq!(&buf[name_at..name_at + PATCHED_NAME.len()], PATCHED_NAME);
    assert_eq!(patch_bytes(&mut buf).unwrap(), PatchOutcome::AlreadyPatched);
}

#[test]
fn locale_patch_refuses_a_buffer_without_signature() {
    let mut buf = vec![0u8; 32];
    assert_eq!(patch_bytes(&mut buf), Err(LocaleError::SignatureNotFound));
    assert_eq!(buf, vec![0u8; 32]);
}

#[test]
fn locale_patch_leaves_other_bytes_alone() {
    let mut buf = vec![0x11; 3];
    buf.extend_from_slice(ANCHOR_GEO);
    buf.extend_from_slice(ORIG_NAME);
    buf.extend_from_slice(&[0x22; 5]);
    let before = buf.clone();
    patch_bytes(&mut buf).unwrap();
    assert_eq!(&buf[..3 + ANCHOR_GEO.len()], &before[..3 + ANCHOR_GEO.len()]);
    assert_eq!(&buf[buf.len() - 5..], &before[before.len() - 5..]);
}
