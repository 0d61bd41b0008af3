//! Region spoofing for `micont_rtm.dll`.
//!
//! The DLL reads the region from `HKCU\Control Panel\International\Geo\Name`.
//! The patch renames the value it reads: the wide string `Name\0` right after
//! the anchor `Geo\0` becomes `XCN\0\0` (same length, nothing moves), so the
//! program reads `Geo\XCN`, which the tool sets to the spoofed region.

use vstd::prelude::*;
use crate::infra::bytes::{find_bytes, lemma_find_first, lemma_find_none, lemma_find_some, occurs_at, spec_find};
use crate::infra::le::{lemma_splice, splice, write_bytes_at};

verus! {

/// The DLL this patch targets.
pub const TARGET_DLL: &'static str = "micont_rtm.dll";

/// Registry key and value name the patched DLL reads.
pub const GEO_KEY: &'static str = "Control Panel\\International\\Geo";
pub const SPOOF_VALUE_NAME: &'static str = "XCN";

/// What `patch_bytes` did.
#[derive(Debug, Clone, Copy, PartialEq, Eq)]
pub enum PatchOutcome {
    Patched,
    AlreadyPatched,
}

/// Why `patch_bytes` refused.
#[derive(Debug, Clone, Copy, PartialEq, Eq)]
pub enum LocaleError {
    /// Neither the original nor the patched `Geo\Name` signature is present.
    SignatureNotFound,
}

impl LocaleError {
    /// The text shown for the error.
    pub fn message(self) -> (r: &'static str)
        ensures
            r@ == "未在 micont_rtm.dll 中找到 `Geo\\Name` 特征，可能版本结构已变更"@,
    {
        "未在 micont_rtm.dll 中找到 `Geo\\Name` 特征，可能版本结构已变更"
    }
}

/// Anchor: the wide string `Geo\0`.
pub open spec fn anchor_geo() -> Seq<u8> {
    seq![0x47u8, 0x00, 0x65, 0x00, 0x6F, 0x00, 0x00, 0x00]
}

/// The original value name: wide `Name` and terminator (10 bytes).
pub open spec fn orig_name() -> Seq<u8> {
    seq![0x4Eu8, 0x00, 0x61, 0x00, 0x6D, 0x00, 0x65, 0x00, 0x00, 0x00]
}

/// The new value name: wide `XCN`, terminator and padding (10 bytes).
pub open spec fn patched_name() -> Seq<u8> {
    seq![0x58u8, 0x00, 0x43, 0x00, 0x4E, 0x00, 0x00, 0x00, 0x00, 0x00]
}

/// `Geo\0` followed by `Name\0`.
pub open spec fn orig_sig() -> Seq<u8> {
    anchor_geo() + orig_name()
}

/// `Geo\0` followed by `XCN\0\0`.
pub open spec fn patched_sig() -> Seq<u8> {
    anchor_geo() + patched_name()
}

/// What `patch_bytes` leaves in the buffer and returns.
pub open spec fn spec_patch_bytes(data: Seq<u8>) -> (Seq<u8>, Result<PatchOutcome, LocaleError>) {
    match spec_find(data, orig_sig()) {
        Some(p) => (splice(data, p + 8, patched_name()), Ok(PatchOutcome::Patched)),
        None => if spec_find(data, patched_sig()) is Some {
            (data, Ok(PatchOutcome::AlreadyPatched))
        } else {
            (data, Err(LocaleError::SignatureNotFound))
        },
    }
}

fn orig_sig_bytes() -> (r: Vec<u8>)
    ensures
        r@ == orig_sig(),
{
    let r = vec![0x47u8, 0x00, 0x65, 0x00, 0x6F, 0x00, 0x00, 0x00, 0x4E, 0x00, 0x61, 0x00, 0x6D, 0x00, 0x65, 0x00, 0x00, 0x00];
    assert(r@ =~= orig_sig());
    r
}

fn patched_sig_bytes() -> (r: Vec<u8>)
    ensures
        r@ == patched_sig(),
{
    let r = vec![0x47u8, 0x00, 0x65, 0x00, 0x6F, 0x00, 0x00, 0x00, 0x58, 0x00, 0x43, 0x00, 0x4E, 0x00, 0x00, 0x00, 0x00, 0x00];
    assert(r@ =~= patched_sig());
    r
}

fn patched_name_bytes() -> (r: Vec<u8>)
    ensures
        r@ == patched_name(),
{
    let r = vec![0x58u8, 0x00, 0x43, 0x00, 0x4E, 0x00, 0x00, 0x00, 0x00, 0x00];
    assert(r@ =~= patched_name());
    r
}

/// Renames the value the DLL reads from `Geo\Name` to `Geo\XCN`, in place and
/// at equal length; a buffer that already carries the new name is left alone.
pub fn patch_bytes(data: &mut Vec<u8>) -> (res: Result<PatchOutcome, LocaleError>)
    ensures
        (final(data)@, res) == spec_patch_bytes(old(data)@),
        final(data)@.len() == old(data)@.len(),
{
    let orig = orig_sig_bytes();
    let patched = patched_sig_bytes();
    if let Some(pos) = find_bytes(data.as_slice(), orig.as_slice()) {
        assert(data@.len() == data.len());
        let name_at = pos + 8;
        let name = patched_name_bytes();
        proof {
            lemma_splice(data@, name_at as int, patched_name());
        }
        write_bytes_at(data, name_at, name.as_slice());
        return Ok(PatchOutcome::Patched);
    }
    if find_bytes(data.as_slice(), patched.as_slice()).is_some() {
        return Ok(PatchOutcome::AlreadyPatched);
    }
    Err(LocaleError::SignatureNotFound)
}

/// The renamed buffer holds `Geo\XCN` where `Geo\Name` was.
proof fn lemma_renamed_window(data: Seq<u8>, p: int)
    requires
        occurs_at(data, orig_sig(), p),
    ensures
        forall|k: int| p <= k < p + 18 ==> #[trigger] splice(data, p + 8, patched_name())[k] == patched_sig()[k - p],
        splice(data, p + 8, patched_name()).len() == data.len(),
        occurs_at(splice(data, p + 8, patched_name()), patched_sig(), p),
{
    let d1 = splice(data, p + 8, patched_name());
    lemma_splice(data, p + 8, patched_name());
    assert(data.subrange(p, p + 18) == orig_sig());
    assert forall|k: int| p <= k < p + 18 implies d1[k] == patched_sig()[k - p] by {
        if k < p + 8 {
            assert(data[k] == data.subrange(p, p + 18)[k - p]);
        } else {
            assert(d1.subrange(p + 8, p + 18)[k - p - 8] == d1[k]);
        }
    }
    assert(d1.subrange(p, p + 18) =~= patched_sig());
}

/// Past its first byte, `Geo\XCN` holds no `G` (0x47).
proof fn lemma_patched_sig_no_g(j: int)
    requires
        1 <= j < 18,
    ensures
        patched_sig()[j] != 0x47u8,
{
    if j == 1 {
        assert(patched_sig()[1] != 0x47u8);
    } else if j == 2 {
        assert(patched_sig()[2] != 0x47u8);
    } else if j == 3 {
        assert(patched_sig()[3] != 0x47u8);
    } else if j == 4 {
        assert(patched_sig()[4] != 0x47u8);
    } else if j == 5 {
        assert(patched_sig()[5] != 0x47u8);
    } else if j == 6 {
        assert(patched_sig()[6] != 0x47u8);
    } else if j == 7 {
        assert(patched_sig()[7] != 0x47u8);
    } else if j == 8 {
        assert(patched_sig()[8] != 0x47u8);
    } else if j == 9 {
        assert(patched_sig()[9] != 0x47u8);
    } else if j == 10 {
        assert(patched_sig()[10] != 0x47u8);
    } else if j == 11 {
        assert(patched_sig()[11] != 0x47u8);
    } else if j == 12 {
        assert(patched_sig()[12] != 0x47u8);
    } else if j == 13 {
        assert(patched_sig()[13] != 0x47u8);
    } else if j == 14 {
        assert(patched_sig()[14] != 0x47u8);
    } else if j == 15 {
        assert(patched_sig()[15] != 0x47u8);
    } else if j == 16 {
        assert(patched_sig()[16] != 0x47u8);
    } else if j == 17 {
        assert(patched_sig()[17] != 0x47u8);
    }
}

/// Past its first byte, `Geo\Name` holds no `G` (0x47).
proof fn lemma_orig_sig_no_g(j: int)
    requires
        1 <= j < 18,
    ensures
        orig_sig()[j] != 0x47u8,
{
    if j == 1 {
        assert(orig_sig()[1] != 0x47u8);
    } else if j == 2 {
        assert(orig_sig()[2] != 0x47u8);
    } else if j == 3 {
        assert(orig_sig()[3] != 0x47u8);
    } else if j == 4 {
        assert(orig_sig()[4] != 0x47u8);
    } else if j == 5 {
        assert(orig_sig()[5] != 0x47u8);
    } else if j == 6 {
        assert(orig_sig()[6] != 0x47u8);
    } else if j == 7 {
        assert(orig_sig()[7] != 0x47u8);
    } else if j == 8 {
        assert(orig_sig()[8] != 0x47u8);
    } else if j == 9 {
        assert(orig_sig()[9] != 0x47u8);
    } else if j == 10 {
        assert(orig_sig()[10] != 0x47u8);
    } else if j == 11 {
        assert(orig_sig()[11] != 0x47u8);
    } else if j == 12 {
        assert(orig_sig()[12] != 0x47u8);
    } else if j == 13 {
        assert(orig_sig()[13] != 0x47u8);
    } else if j == 14 {
        assert(orig_sig()[14] != 0x47u8);
    } else if j == 15 {
        assert(orig_sig()[15] != 0x47u8);
    } else if j == 16 {
        assert(orig_sig()[16] != 0x47u8);
    } else if j == 17 {
        assert(orig_sig()[17] != 0x47u8);
    }
}

/// After the rename, `Geo\Name` does not start at `q` where the window
/// touches the renamed bytes.
proof fn lemma_no_orig_overlapping(data: Seq<u8>, p: int, q: int)
    requires
        occurs_at(data, orig_sig(), p),
        p - 10 < q < p + 18,
    ensures
        !occurs_at(splice(data, p + 8, patched_name()), orig_sig(), q),
{
    let d1 = splice(data, p + 8, patched_name());
    lemma_renamed_window(data, p);
    if occurs_at(d1, orig_sig(), q) {
        let w = d1.subrange(q, q + 18);
        assert(w == orig_sig());
        if q == p {
            assert(w[8] == d1[p + 8]);
            assert(d1[p + 8] == patched_sig()[8]);
        } else if q > p {
            assert(w[0] == d1[q]);
            assert(d1[q] == patched_sig()[q - p]);
            lemma_patched_sig_no_g(q - p);
        } else {
            assert(w[p - q] == d1[p]);
            assert(d1[p] == patched_sig()[0]);
            lemma_orig_sig_no_g(p - q);
        }
    }
}

/// After the rename, `Geo\Name` does not start at `q` away from the renamed bytes either.
proof fn lemma_no_orig_at(data: Seq<u8>, p: int, q: int)
    requires
        occurs_at(data, orig_sig(), p),
        forall|r: int| occurs_at(data, orig_sig(), r) ==> r == p,
    ensures
        !occurs_at(splice(data, p + 8, patched_name()), orig_sig(), q),
{
    let d1 = splice(data, p + 8, patched_name());
    if p - 10 < q < p + 18 {
        lemma_no_orig_overlapping(data, p, q);
    } else if occurs_at(d1, orig_sig(), q) {
        lemma_splice(data, p + 8, patched_name());
        assert(data.subrange(q, q + 18) =~= d1.subrange(q, q + 18));
        assert(occurs_at(data, orig_sig(), q));
    }
}

/// Applying the patch a second time changes nothing: once the only
/// `Geo\Name` signature of a buffer was renamed, the buffer holds `Geo\XCN`
/// and no `Geo\Name` any more, so the next call reports `AlreadyPatched`.
pub proof fn lemma_patch_idempotent(data: Seq<u8>, p: int)
    requires
        occurs_at(data, orig_sig(), p),
        forall|q: int| occurs_at(data, orig_sig(), q) ==> q == p,
    ensures
        spec_patch_bytes(data).1 == Ok::<PatchOutcome, LocaleError>(PatchOutcome::Patched),
        spec_patch_bytes(spec_patch_bytes(data).0) == (
            spec_patch_bytes(data).0,
            Ok::<PatchOutcome, LocaleError>(PatchOutcome::AlreadyPatched),
        ),
{
    let d1 = splice(data, p + 8, patched_name());
    lemma_find_first(data, orig_sig(), p);
    lemma_renamed_window(data, p);
    assert forall|q: int| !occurs_at(d1, orig_sig(), q) by {
        lemma_no_orig_at(data, p, q);
    }
    lemma_find_none(d1, orig_sig());
    lemma_find_some(d1, patched_sig(), p);
}

} // verus!
