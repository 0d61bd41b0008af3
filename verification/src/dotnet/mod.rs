//! .NET assembly patching in pure Rust: locate a method, put a guard in front
//! of its body, and relocate the grown body into a new section.
//!
//! The body is relocated and `MethodDef.RVA` rewritten because the guard makes
//! the body grow, so it cannot stay where it is; the metadata heaps are left
//! untouched (no new strings or member references).

pub mod metadata;
pub mod method_body;
pub mod pe;

use vstd::prelude::*;
use vstd::string::StringExecFns;
use vstd::string::StringSliceAdditionalSpecFns;
use crate::infra::bytes::bytes_equal_at;
use crate::infra::le::{le32, splice};
use metadata::{find_method, find_method_reads_ok, spec_find_method, MetadataError};
use method_body::{
    body_reads_ok, build_guard, clauses_shift_fits, lemma_guarded_body_reparses, spec_guard, spec_guarded_body,
    spec_parse_body, BodyModel, MethodBody, MethodBodyError,
};
use pe::{
    append_reads_ok, checksum_fits, is_pow2, lemma_appended_layout, lemma_sections_frame, lemma_write_then_checksum,
    opt_field_in_bounds, room_for_header, rva_lookup_fits, sections_in_bounds, spec_append, spec_rva_lookup,
    spec_sections, strip_certificate, with_checksum, PeError, PeImage, OPT_CHECKSUM, OPT_DATA_DIRECTORIES,
    OPT_FILE_ALIGNMENT, OPT_SECTION_ALIGNMENT,
};
use crate::infra::le::spec_u32;
use metadata::lemma_found_rva_is_field;
use method_body::{embedded_at, lemma_parse_shift};

verus! {

/// What an injection did.
#[derive(Debug, Clone, Copy, PartialEq, Eq)]
pub enum InjectOutcome {
    /// The guard was put in place.
    Patched,
    /// The body already starts with the same guard; nothing was changed.
    AlreadyPatched,
}

/// Why an injection failed.
#[derive(Debug, Clone, Copy, PartialEq, Eq)]
pub enum InjectError {
    /// The method could not be located.
    Metadata(MetadataError),
    /// The body RVA maps to no section.
    BodyUnmapped(u32),
    /// The body could not be parsed.
    Body(MethodBodyError),
    /// The new section could not be appended.
    Image(PeError),
}

impl InjectError {
    /// The text shown for the error, for the injection into `wanted_type` / `suffix`.
    pub open spec fn spec_message(self, wanted_type: Seq<char>, suffix: Seq<char>) -> Seq<char> {
        match self {
            InjectError::Metadata(e) => e.spec_message(wanted_type, suffix),
            InjectError::BodyUnmapped(rva) => "方法体 RVA 0x"@ + crate::infra::text::spec_hex(rva as nat) + " 无法映射"@,
            InjectError::Body(_) => "未知的方法体头类型"@,
            InjectError::Image(e) => e.spec_message(),
        }
    }

    /// The text shown for the error, for the injection into `wanted_type` / `suffix`.
    pub fn message(self, wanted_type: &str, suffix: &str) -> (r: String)
        ensures
            r@ == self.spec_message(wanted_type@, suffix@),
    {
        match self {
            InjectError::Metadata(e) => e.message(wanted_type, suffix),
            InjectError::BodyUnmapped(rva) => {
                let mut s = String::from_str("方法体 RVA 0x");
                crate::infra::text::push_hex(&mut s, rva as u64);
                s.append(" 无法映射");
                s
            },
            InjectError::Body(e) => String::from_str(e.message()),
            InjectError::Image(e) => e.message(),
        }
    }
}

/// Characteristics of the section that receives relocated IL: code, execute,
/// read (the same as `.text`).
pub const IL_SECTION_CHARACTERISTICS: u32 = 0x6000_0020;

/// `il` already starts with `guard`.
pub open spec fn starts_with_guard(il: Seq<u8>, guard: Seq<u8>) -> bool {
    il.len() >= guard.len() && il.subrange(0, guard.len() as int) == guard
}

/// What an injection returns and the image bytes it leaves.
pub open spec fn spec_inject(
    pe: PeImage,
    wanted_type: Seq<u8>,
    suffix: Seq<u8>,
    arg_index: u8,
    value: i32,
    section_name: Seq<u8>,
) -> (Result<InjectOutcome, InjectError>, Seq<u8>) {
    let d = pe.data@;
    match spec_find_method(pe, wanted_type, suffix) {
        Some(Ok((rva, fo))) => match spec_rva_lookup(spec_sections(d, pe.table(), pe.count()), rva, 0) {
            None => (Err(InjectError::BodyUnmapped(rva as u32)), d),
            Some(off) => match spec_parse_body(d, off) {
                Err(e) => (Err(InjectError::Body(e)), d),
                Ok(m) => if starts_with_guard(m.il, spec_guard(arg_index, value)) {
                    (Ok(InjectOutcome::AlreadyPatched), d)
                } else {
                    match spec_append(
                        d,
                        pe.coff(),
                        pe.opt(),
                        pe.table(),
                        pe.count(),
                        section_name,
                        spec_guarded_body(m, arg_index, value),
                        IL_SECTION_CHARACTERISTICS,
                    ) {
                        Err(e) => (Err(InjectError::Image(e)), d),
                        Ok((d2, va)) => (
                            Ok(InjectOutcome::Patched),
                            with_checksum(splice(d2, fo, le32(va as int)), pe.opt() + OPT_CHECKSUM),
                        ),
                    }
                },
            },
        },
        Some(Err(e)) => (Err(InjectError::Metadata(e)), d),
        None => (Err(InjectError::Metadata(MetadataError::MethodNotFound)), d),
    }
}

/// Every read of the injection stays in the image and its arithmetic fits.
pub open spec fn inject_reads_ok(
    pe: PeImage,
    wanted_type: Seq<u8>,
    suffix: Seq<u8>,
    arg_index: u8,
    value: i32,
    section_name: Seq<u8>,
) -> bool {
    let d = pe.data@;
    let secs = spec_sections(d, pe.table(), pe.count());
    let g = spec_guard(arg_index, value);
    &&& pe.wf()
    &&& find_method_reads_ok(pe, wanted_type, suffix)
    &&& spec_find_method(pe, wanted_type, suffix) matches Some(Ok((rva, fo))) ==> {
        &&& sections_in_bounds(d, pe.table(), pe.count())
        &&& rva_lookup_fits(secs, rva, 0)
        &&& spec_rva_lookup(secs, rva, 0) matches Some(off) ==> {
            &&& body_reads_ok(d, off)
            &&& spec_parse_body(d, off) matches Ok(m) ==> (!starts_with_guard(m.il, g) ==> {
                &&& m.il.len() + 64 <= usize::MAX
                &&& m.eh_clauses.len() * 24 + 4 <= usize::MAX
                &&& clauses_shift_fits(m.eh_clauses, g.len() as int)
                &&& append_reads_ok(
                    d,
                    pe.coff(),
                    pe.opt(),
                    pe.table(),
                    pe.count(),
                    section_name,
                    spec_guarded_body(m, arg_index, value),
                    IL_SECTION_CHARACTERISTICS,
                )
                &&& spec_append(
                    d,
                    pe.coff(),
                    pe.opt(),
                    pe.table(),
                    pe.count(),
                    section_name,
                    spec_guarded_body(m, arg_index, value),
                    IL_SECTION_CHARACTERISTICS,
                ) matches Ok((d2, va)) ==> {
                    &&& fo + 4 <= d2.len()
                    &&& opt_field_in_bounds(splice(d2, fo, le32(va as int)), pe.opt(), OPT_CHECKSUM as int)
                    &&& checksum_fits(
                        splice(splice(d2, fo, le32(va as int)), pe.opt() + OPT_CHECKSUM, seq![0u8, 0u8, 0u8, 0u8]),
                    )
                }
            })
        }
    }
}

/// Puts `if (arg[arg_index] == value) return;` in front of the body of the
/// first method of type `type_simple_name` whose name ends with
/// `method_name_suffix`: the guarded body goes into a new section named
/// `section_name`, `MethodDef.RVA` is pointed at it, and the checksum is
/// recomputed. A body that already starts with the guard is left alone.
pub fn inject_guard_return(
    pe: &mut PeImage,
    type_simple_name: &str,
    method_name_suffix: &str,
    arg_index: u8,
    value: i32,
    section_name: &str,
) -> (res: Result<InjectOutcome, InjectError>)
    requires
        inject_reads_ok(
            *old(pe),
            type_simple_name.spec_bytes(),
            method_name_suffix.spec_bytes(),
            arg_index,
            value,
            section_name.spec_bytes(),
        ),
    ensures
        ({
            let (r, d) = spec_inject(
                *old(pe),
                type_simple_name.spec_bytes(),
                method_name_suffix.spec_bytes(),
                arg_index,
                value,
                section_name.spec_bytes(),
            );
            res == r && final(pe).data@ == d
        }),
        final(pe).coff() == old(pe).coff(),
        final(pe).opt() == old(pe).opt(),
        final(pe).table() == old(pe).table(),
{
    let ghost d0 = pe.data@;
    let loc = match find_method(pe, type_simple_name, method_name_suffix) {
        Ok(l) => l,
        Err(e) => return Err(InjectError::Metadata(e)),
    };
    let body_off = match pe.rva_to_offset(loc.body_rva) {
        Some(o) => o,
        None => return Err(InjectError::BodyUnmapped(loc.body_rva)),
    };
    let body = match MethodBody::parse(pe.data.as_slice(), body_off) {
        Ok(b) => b,
        Err(e) => return Err(InjectError::Body(e)),
    };
    let guard = build_guard(arg_index, value);
    if body.il.len() >= guard.len() && bytes_equal_at(body.il.as_slice(), 0, guard.as_slice()) {
        return Ok(InjectOutcome::AlreadyPatched);
    }
    let new_body = body.build_with_guard(arg_index, value);
    let new_rva = match pe.append_section(section_name, new_body.as_slice(), IL_SECTION_CHARACTERISTICS) {
        Ok(v) => v,
        Err(e) => return Err(InjectError::Image(e)),
    };
    pe.write_u32_at(loc.rva_field_offset, new_rva);
    pe.update_checksum();
    Ok(InjectOutcome::Patched)
}

/// A body that an injection wrote reads back with the guard at the start of
/// its IL, so an injection into it finds the guard and changes nothing.
pub proof fn lemma_guarded_body_is_recognised(m: BodyModel, arg_index: u8, value: i32)
    requires
        m.il.len() + 10 <= u32::MAX,
        m.eh_clauses.len() * 24 + 4 < 0x100_0000,
        clauses_shift_fits(m.eh_clauses, spec_guard(arg_index, value).len() as int),
    ensures
        body_reads_ok(spec_guarded_body(m, arg_index, value), 0),
        spec_parse_body(spec_guarded_body(m, arg_index, value), 0) matches Ok(m2)
            && starts_with_guard(m2.il, spec_guard(arg_index, value)),
{
    lemma_guarded_body_reparses(m, arg_index, value);
    let g = spec_guard(arg_index, value);
    assert((g + m.il).subrange(0, g.len() as int) =~= g);
}

/// The method an injection would guard in `pe`: its RVA field's offset, the
/// body's file offset and the parsed body, when the lookup gets that far.
pub open spec fn injection_target(pe: PeImage, wanted_type: Seq<u8>, suffix: Seq<u8>) -> Option<(int, int, BodyModel)> {
    let d = pe.data@;
    match spec_find_method(pe, wanted_type, suffix) {
        Some(Ok((rva, fo))) => match spec_rva_lookup(spec_sections(d, pe.table(), pe.count()), rva, 0) {
            Some(off) => match spec_parse_body(d, off) {
                Ok(m) => Some((fo, off, m)),
                Err(_) => None,
            },
            None => None,
        },
        _ => None,
    }
}

/// The image layout the append needs: power-of-two alignments (the file
/// alignment a multiple of 4), the data directories before the section
/// table, room for one more header before a trailing certificate, the
/// target's RVA field in the section data before that certificate, and a
/// guarded body whose sizes fit their header fields.
pub open spec fn reinjectable_layout(pe: PeImage, wanted_type: Seq<u8>, suffix: Seq<u8>, arg_index: u8, value: i32) -> bool {
    let d0 = pe.data@;
    &&& d0.len() <= u32::MAX
    &&& pe.opt() + OPT_DATA_DIRECTORIES + 128 <= pe.table()
    &&& is_pow2(spec_u32(d0, pe.opt() + OPT_FILE_ALIGNMENT) as u32)
    &&& spec_u32(d0, pe.opt() + OPT_FILE_ALIGNMENT) % 4 == 0
    &&& is_pow2(spec_u32(d0, pe.opt() + OPT_SECTION_ALIGNMENT) as u32)
    &&& room_for_header(d0, pe.opt(), pe.table(), pe.count())
    &&& injection_target(pe, wanted_type, suffix) matches Some((fo, off, m)) ==> {
        &&& pe.table() + (pe.count() + 1) * 40 <= fo
        &&& fo + 4 <= strip_certificate(d0, pe.opt()).len()
        &&& m.il.len() + 10 <= u32::MAX
        &&& m.eh_clauses.len() * 24 + 4 < 0x100_0000
        &&& spec_guarded_body(m, arg_index, value).len() <= u32::MAX
    }
}

/// Injecting twice changes nothing: when an injection patched `pe`, the
/// image it left (`pe1`, one section more) gets the answer `AlreadyPatched`
/// from the same injection and keeps its bytes, provided the lookup in
/// `pe1` finds the method at the same RVA field. The RVA field then holds
/// the new section's RVA, which maps to the guarded body, and that body
/// parses with the guard in front.
pub proof fn lemma_injection_idempotent(
    pe: PeImage,
    pe1: PeImage,
    wanted_type: Seq<u8>,
    suffix: Seq<u8>,
    arg_index: u8,
    value: i32,
    section_name: Seq<u8>,
)
    requires
        inject_reads_ok(pe, wanted_type, suffix, arg_index, value, section_name),
        reinjectable_layout(pe, wanted_type, suffix, arg_index, value),
        spec_inject(pe, wanted_type, suffix, arg_index, value, section_name).0 == Ok::<InjectOutcome, InjectError>(
            InjectOutcome::Patched,
        ),
        pe1.data@ == spec_inject(pe, wanted_type, suffix, arg_index, value, section_name).1,
        pe1.coff() == pe.coff(),
        pe1.opt() == pe.opt(),
        pe1.table() == pe.table(),
        pe1.count() == pe.count() + 1,
        injection_target(pe, wanted_type, suffix) matches Some((fo, off, m)) ==> (spec_find_method(
            pe1,
            wanted_type,
            suffix,
        ) matches Some(Ok((rva1, fo1))) && fo1 == fo),
    ensures
        spec_inject(pe1, wanted_type, suffix, arg_index, value, section_name) == (
        Ok::<InjectOutcome, InjectError>(InjectOutcome::AlreadyPatched),
        pe1.data@,
        ),
{
    let d0 = pe.data@;
    let g = spec_guard(arg_index, value);
    match spec_find_method(pe, wanted_type, suffix) {
        Some(Ok((rva, fo))) => match spec_rva_lookup(spec_sections(d0, pe.table(), pe.count()), rva, 0) {
            Some(off) => match spec_parse_body(d0, off) {
                Ok(m) => {
                    let payload = spec_guarded_body(m, arg_index, value);
                    assert(!starts_with_guard(m.il, g));
                    lemma_guarded_body_is_recognised(m, arg_index, value);
                    assert(injection_target(pe, wanted_type, suffix) == Some((fo, off, m)));
                    lemma_appended_layout(
                        d0,
                        pe.coff(),
                        pe.opt(),
                        pe.table(),
                        pe.count(),
                        section_name,
                        payload,
                        IL_SECTION_CHARACTERISTICS,
                    );
                    let (d2, va) = spec_append(
                        d0,
                        pe.coff(),
                        pe.opt(),
                        pe.table(),
                        pe.count(),
                        section_name,
                        payload,
                        IL_SECTION_CHARACTERISTICS,
                    )->Ok_0;
                    let plan = pe::append_plan(d0, pe.opt(), pe.table(), pe.count(), payload);
                    let r = plan.raw_start as int;
                    let chk = pe.opt() + OPT_CHECKSUM;
                    let d1 = pe1.data@;
                    assert(d1 == with_checksum(crate::infra::le::splice(d2, fo, crate::infra::le::le32(va as int)), chk));
                    lemma_write_then_checksum(d2, fo, va as int, chk);
                    assert(embedded_at(d1, r, payload)) by {
                        assert forall|k: int| 0 <= k < payload.len() implies #[trigger] d1[r + k] == payload[k] by {
                            assert(d2[r + k] == payload[k]);
                        }
                    }
                    lemma_parse_shift(d1, r, payload);
                    lemma_sections_frame(d1, d2, pe.table(), pe.count() + 1);
                    lemma_found_rva_is_field(pe1, wanted_type, suffix);
                    assert((g + m.il).subrange(0, g.len() as int) =~= g);
                },
                Err(_) => {},
            },
            None => {},
        },
        _ => {},
    }
}

} // verus!
