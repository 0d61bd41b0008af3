//! SMBIOS device identity patch for `micont_rtm.dll`.
//!
//! The DLL reads the board's SMBIOS through `GetSystemFirmwareTable` and
//! reports the real product to the phone, so that casting cannot find a
//! non-Xiaomi device. The patch redirects the `call [rip+disp32]` to that
//! import into a trampoline in a new `.mipatch` section; the trampoline calls
//! the original and overwrites the manufacturer and product strings in the
//! returned buffer. This module turns the extracted SMBIOS fields into the
//! trampoline's same-length replacements.

use vstd::prelude::*;
use vstd::string::StringSliceAdditionalSpecFns;
use vstd::utf8::encode_utf8;
use crate::smbios::{spec_target_value, SmbiosField};
use crate::x64_trampoline::{entries_ok, ReplaceEntry};

verus! {

/// The patched DLL.
pub const TARGET_DLL: &'static str = "micont_rtm.dll";
/// The model code used when none is given.
pub const DEFAULT_MODEL: &'static str = "TM2424";
/// Name of the section that receives the trampoline.
pub const SECTION_NAME: &'static str = ".mipatch";
/// Code, execute, read.
pub const SECTION_CHARACTERISTICS: u32 = 0x6000_0020;

/// What applying the patch did.
#[derive(Debug, Clone, Copy, PartialEq, Eq)]
pub enum PatchOutcome {
    Patched,
    AlreadyPatched,
}

/// `n` zero bytes.
pub open spec fn zeros(n: int) -> Seq<u8> {
    Seq::new(n as nat, |i: int| 0u8)
}

/// The bytes the trampoline expects for a field: its UTF-8 text and the NUL
/// that ends it in the string table.
pub open spec fn expected_bytes(f: SmbiosField) -> Seq<u8> {
    encode_utf8(f.value@).push(0)
}

/// The bytes written over a field: the target text, padded with NULs to the
/// expected length when shorter (a longer target is cut to that length when
/// written).
pub open spec fn replacement_bytes(f: SmbiosField, model: Seq<char>) -> Seq<u8> {
    let target = encode_utf8(spec_target_value(f.role, model));
    let n = expected_bytes(f).len() as int;
    if target.len() < n { target + zeros(n - target.len()) } else { target }
}

/// The replacement of one field for the device model `model`.
pub open spec fn entry_matches(e: ReplaceEntry, f: SmbiosField, model: Seq<char>) -> bool {
    &&& e.offset == f.offset as u32
    &&& e.verify@ == expected_bytes(f)
    &&& e.replace@ == replacement_bytes(f, model)
}

/// The replacement of one field.
fn build_replace_entry(field: &SmbiosField, model_code: &str) -> (e: ReplaceEntry)
    ensures
        entry_matches(e, *field, model_code@),
{
    let target = field.role.target_value(model_code);
    let value = field.value.as_str();
    let vb = value.as_bytes();
    let mut verify: Vec<u8> = Vec::new();
    let mut i: usize = 0;
    while i < vb.len()
        invariant
            vb@ == encode_utf8(field.value@),
            i <= vb@.len(),
            verify@ =~= vb@.take(i as int),
        decreases vb@.len() - i,
    {
        verify.push(vb[i]);
        i = i + 1;
    }
    assert(vb@.take(i as int) =~= vb@);
    verify.push(0);
    let tb = target.as_bytes();
    let mut replace: Vec<u8> = Vec::new();
    let mut j: usize = 0;
    while j < tb.len()
        invariant
            j <= tb@.len(),
            replace@ =~= tb@.take(j as int),
        decreases tb@.len() - j,
    {
        replace.push(tb[j]);
        j = j + 1;
    }
    assert(tb@.take(j as int) =~= tb@);
    let ghost t = replace@;
    while replace.len() < verify.len()
        invariant
            t.len() <= replace@.len(),
            replace@.len() <= verify@.len() || replace@ == t,
            replace@ =~= t + zeros(replace@.len() - t.len()),
        decreases verify@.len() - replace@.len(),
    {
        replace.push(0);
    }
    proof {
        if t.len() >= verify@.len() {
            assert(replace@ =~= t);
        }
    }
    ReplaceEntry { offset: field.offset as u32, verify, replace }
}

/// The replacements of all fields, in order, for the device model `model_code`.
pub fn build_replace_entries(fields: &Vec<SmbiosField>, model_code: &str) -> (es: Vec<ReplaceEntry>)
    ensures
        es@.len() == fields@.len(),
        forall|i: int| 0 <= i < fields@.len() ==> entry_matches(#[trigger] es@[i], fields@[i], model_code@),
{
    let mut es: Vec<ReplaceEntry> = Vec::new();
    let mut i: usize = 0;
    while i < fields.len()
        invariant
            i <= fields@.len(),
            es@.len() == i,
            forall|k: int| 0 <= k < i ==> entry_matches(#[trigger] es@[k], fields@[k], model_code@),
        decreases fields@.len() - i,
    {
        let e = build_replace_entry(&fields[i], model_code);
        es.push(e);
        i = i + 1;
    }
    es
}

/// Every replacement built from SMBIOS fields can go into the trampoline
/// (there is one per field, and each field's text is shorter than 4 GiB), and
/// each writes all the bytes it checks from its own replacement (the shorter
/// targets are padded, so no byte falls back to NUL padding).
pub proof fn lemma_entries_fit_trampoline(es: Seq<ReplaceEntry>, fields: Seq<SmbiosField>, model: Seq<char>)
    requires
        fields.len() > 0,
        es.len() == fields.len(),
        forall|i: int| 0 <= i < fields.len() ==> entry_matches(#[trigger] es[i], fields[i], model),
        forall|i: int| 0 <= i < fields.len() ==> encode_utf8((#[trigger] fields[i]).value@).len() < u32::MAX,
    ensures
        entries_ok(es),
        forall|k: int| 0 <= k < es.len() ==> (#[trigger] es[k]).verify@.len() <= es[k].replace@.len(),
{
    assert forall|k: int| 0 <= k < es.len() implies #[trigger] es[k].verify@.len() <= u32::MAX by {
        assert(entry_matches(es[k], fields[k], model));
        assert(encode_utf8(fields[k].value@).len() < u32::MAX);
    }
    assert forall|k: int| 0 <= k < es.len() implies (#[trigger] es[k]).verify@.len() <= es[k].replace@.len() by {
        assert(entry_matches(es[k], fields[k], model));
    }
}

} // verus!
