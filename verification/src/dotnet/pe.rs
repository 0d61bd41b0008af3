//! A minimal PE32+ (x64) image reader and rewriter.
//!
//! What the patches need and nothing more: the section table, RVA to file
//! offset mapping, data directories, appending a section that carries a
//! payload (a relocated method body or trampoline), dropping the Authenticode
//! certificate that any change invalidates, and recomputing the PE checksum.

use vstd::prelude::*;
use vstd::string::StringExecFns;
use vstd::string::StringSliceAdditionalSpecFns;
use crate::infra::le::{
    lemma_splice, le16, le32, rd_u16, rd_u32, spec_u16, spec_u32, splice, u32_le_bytes, write_bytes_at, write_u16_le,
    write_u32_le,
};

verus! {

/// Offsets of optional-header fields, relative to the start of the optional header.
pub const OPT_MAGIC: usize = 0;
pub const OPT_SECTION_ALIGNMENT: usize = 32;
pub const OPT_FILE_ALIGNMENT: usize = 36;
pub const OPT_SIZE_OF_IMAGE: usize = 56;
pub const OPT_SIZE_OF_HEADERS: usize = 60;
pub const OPT_CHECKSUM: usize = 64;
pub const OPT_DATA_DIRECTORIES: usize = 112;

/// Data directory holding the Authenticode certificate (its "RVA" is a file offset).
pub const DIR_SECURITY: usize = 4;
/// Data directory holding the CLI (COM descriptor) header of a .NET assembly.
pub const DIR_CLR: usize = 14;

pub const PE32PLUS_MAGIC: u16 = 0x20B;
pub const SECTION_HEADER_SIZE: usize = 40;

/// Why an image could not be read or rewritten.
#[derive(Debug, Clone, Copy, PartialEq, Eq)]
pub enum PeError {
    /// The file is not longer than the DOS header.
    TooSmall,
    /// The DOS header does not start with `MZ`.
    MissingMz,
    /// No `PE\0\0` signature where the DOS header points.
    MissingPeSignature,
    /// The optional header is not PE32+; carries the magic that was found.
    NotPe32Plus(u16),
    /// File or section alignment is zero.
    InvalidAlignment,
    /// The header area has no room for one more section header.
    NoRoomForSectionHeader,
    /// No CLI header: not a .NET assembly.
    NotDotNet,
    /// The CLI header RVA maps to no section.
    ClrHeaderUnmapped,
    /// The metadata RVA maps to no section.
    MetadataUnmapped,
    /// The metadata root does not start with `BSJB`.
    MissingMetadataSignature,
}

impl PeError {
    /// The text shown for the error.
    pub open spec fn spec_message(self) -> Seq<char> {
        match self {
            PeError::TooSmall => "文件过小，不是有效 PE"@,
            PeError::MissingMz => "缺少 MZ 头"@,
            PeError::MissingPeSignature => "缺少 PE 签名"@,
            PeError::NotPe32Plus(m) => "仅支持 PE32+ (x64)，magic=0x"@ + crate::infra::text::spec_hex(m as nat),
            PeError::InvalidAlignment => "对齐值非法"@,
            PeError::NoRoomForSectionHeader => "节头区空间不足，无法新增节（需要扩展 SizeOfHeaders，当前未实现）"@,
            PeError::NotDotNet => "不是 .NET 程序集（无 CLR 头）"@,
            PeError::ClrHeaderUnmapped => "CLR 头 RVA 无法映射到文件偏移"@,
            PeError::MetadataUnmapped => "元数据 RVA 无法映射到文件偏移"@,
            PeError::MissingMetadataSignature => "元数据签名 BSJB 缺失"@,
        }
    }

    /// The text shown for the error.
    pub fn message(self) -> (r: String)
        ensures
            r@ == self.spec_message(),
    {
        match self {
            PeError::TooSmall => String::from_str("文件过小，不是有效 PE"),
            PeError::MissingMz => String::from_str("缺少 MZ 头"),
            PeError::MissingPeSignature => String::from_str("缺少 PE 签名"),
            PeError::NotPe32Plus(m) => {
                let mut s = String::from_str("仅支持 PE32+ (x64)，magic=0x");
                crate::infra::text::push_hex(&mut s, m as u64);
                s
            },
            PeError::InvalidAlignment => String::from_str("对齐值非法"),
            PeError::NoRoomForSectionHeader => String::from_str("节头区空间不足，无法新增节（需要扩展 SizeOfHeaders，当前未实现）"),
            PeError::NotDotNet => String::from_str("不是 .NET 程序集（无 CLR 头）"),
            PeError::ClrHeaderUnmapped => String::from_str("CLR 头 RVA 无法映射到文件偏移"),
            PeError::MetadataUnmapped => String::from_str("元数据 RVA 无法映射到文件偏移"),
            PeError::MissingMetadataSignature => String::from_str("元数据签名 BSJB 缺失"),
        }
    }
}

/// One section header, as far as the patches use it.
#[derive(Debug, Clone, Copy)]
pub struct Section {
    pub virtual_size: u32,
    pub virtual_address: u32,
    pub raw_size: u32,
    pub raw_pointer: u32,
}

/// A PE image held in memory and changed in place.
pub struct PeImage {
    pub data: Vec<u8>,
    pub coff_offset: usize,
    pub opt_offset: usize,
    pub section_table_offset: usize,
    pub num_sections: usize,
}

// ---------------------------------------------------------------- header model

/// File offset of the `PE\0\0` signature, as the DOS header gives it.
pub open spec fn spec_pe_offset(d: Seq<u8>) -> int {
    spec_u32(d, 0x3C)
}

/// The reasons `parse` refuses `d`, in the order it checks them.
pub open spec fn spec_parse_error(d: Seq<u8>) -> Option<PeError> {
    let p = spec_pe_offset(d);
    if d.len() <= 0x40 {
        Some(PeError::TooSmall)
    } else if !(d[0] == 0x4D && d[1] == 0x5A) {
        Some(PeError::MissingMz)
    } else if !(p + 24 < d.len() && d[p] == 0x50 && d[p + 1] == 0x45 && d[p + 2] == 0 && d[p + 3] == 0) {
        Some(PeError::MissingPeSignature)
    } else if spec_u16(d, p + 24) != PE32PLUS_MAGIC as int {
        Some(PeError::NotPe32Plus(spec_u16(d, p + 24) as u16))
    } else {
        None
    }
}

/// `parse` reads the magic only after the signature check; it must be in bounds then.
pub open spec fn parse_reads_ok(d: Seq<u8>) -> bool {
    let p = spec_pe_offset(d);
    (d.len() > 0x40 && d[0] == 0x4D && d[1] == 0x5A && p + 24 < d.len() && d[p] == 0x50
        && d[p + 1] == 0x45 && d[p + 2] == 0 && d[p + 3] == 0) ==> p + 26 <= d.len()
}

/// The section header at index `i` of a table starting at `table`.
pub open spec fn spec_section_at(d: Seq<u8>, table: int, i: int) -> Section {
    let o = table + i * 40;
    Section {
        virtual_size: spec_u32(d, o + 8) as u32,
        virtual_address: spec_u32(d, o + 12) as u32,
        raw_size: spec_u32(d, o + 16) as u32,
        raw_pointer: spec_u32(d, o + 20) as u32,
    }
}

/// The mapped extent of a section: the larger of its virtual and raw sizes.
pub open spec fn span(s: Section) -> int {
    if s.virtual_size >= s.raw_size { s.virtual_size as int } else { s.raw_size as int }
}

/// The first section (from index `i` on) that contains `rva`, mapped to a file offset.
pub open spec fn spec_rva_lookup(secs: Seq<Section>, rva: int, i: int) -> Option<int>
    decreases secs.len() - i,
{
    if i < 0 || i >= secs.len() {
        None
    } else {
        let s = secs[i];
        if rva >= s.virtual_address && rva < s.virtual_address + span(s) {
            Some(s.raw_pointer + (rva - s.virtual_address))
        } else {
            spec_rva_lookup(secs, rva, i + 1)
        }
    }
}

/// The 32-bit arithmetic of the lookup does not overflow on the sections it visits.
pub open spec fn rva_lookup_fits(secs: Seq<Section>, rva: int, i: int) -> bool
    decreases secs.len() - i,
{
    if i < 0 || i >= secs.len() {
        true
    } else {
        let s = secs[i];
        if rva >= s.virtual_address {
            &&& s.virtual_address + span(s) <= u32::MAX
            &&& if rva < s.virtual_address + span(s) {
                s.raw_pointer + (rva - s.virtual_address) <= u32::MAX
            } else {
                rva_lookup_fits(secs, rva, i + 1)
            }
        } else {
            rva_lookup_fits(secs, rva, i + 1)
        }
    }
}

/// `align_up` as it computes: `(v + align - 1) & !(align - 1)` on `u32`.
pub open spec fn spec_align_up(v: u32, align: u32) -> u32 {
    ((v + align - 1) as u32) & !((align - 1) as u32)
}

/// `align` is a non-zero power of two.
pub open spec fn is_pow2(align: u32) -> bool {
    align != 0 && align & ((align - 1) as u32) == 0
}

// ---------------------------------------------------------------- checksum model

/// The carry fold applied whenever the running checksum exceeds 32 bits.
pub open spec fn fold32(s: int) -> int {
    if s > 0xFFFF_FFFF { s % 0x1_0000_0000 + s / 0x1_0000_0000 } else { s }
}

/// Running sum over the 16-bit words `d[0..2k]`.
pub open spec fn word_sum(d: Seq<u8>, k: nat) -> int
    decreases k,
{
    if k == 0 { 0 } else { fold32(word_sum(d, (k - 1) as nat) + spec_u16(d, 2 * (k - 1))) }
}

/// The sum over all words plus a trailing odd byte, folded to 16 bits.
pub open spec fn folded_sum(d: Seq<u8>) -> int {
    let w = word_sum(d, d.len() / 2);
    let s0 = if d.len() % 2 == 1 { w + d[d.len() - 1] } else { w };
    let s1 = s0 % 0x10000 + s0 / 0x10000;
    let s2 = s1 + s1 / 0x10000;
    s2 % 0x10000
}

/// The PE checksum of `d` (whose checksum field is expected to be zero):
/// the folded word sum plus the file length, both taken as `u32`.
pub open spec fn spec_checksum(d: Seq<u8>) -> int {
    folded_sum(d) + (d.len() as u32) as int
}

/// The checksum does not overflow `u32` (the addition would panic otherwise).
pub open spec fn checksum_fits(d: Seq<u8>) -> bool {
    spec_checksum(d) <= u32::MAX
}

/// The checksum field of `d` zeroed, then filled with the checksum of the result.
pub open spec fn with_checksum(d: Seq<u8>, field: int) -> Seq<u8> {
    let z = splice(d, field, seq![0u8, 0u8, 0u8, 0u8]);
    splice(z, field, le32(spec_checksum(z)))
}

/// Writing twice over the same range keeps only the second write.
proof fn lemma_splice_twice(d: Seq<u8>, o: int, a: Seq<u8>, b: Seq<u8>)
    requires
        0 <= o,
        o + a.len() <= d.len(),
        a.len() == b.len(),
    ensures
        splice(splice(d, o, a), o, b) == splice(d, o, b),
{
    lemma_splice(d, o, a);
    assert(splice(splice(d, o, a), o, b) =~= splice(d, o, b));
}

/// Recomputing the checksum of an image whose checksum was just computed
/// changes nothing: the sum is taken with the field zeroed.
pub proof fn lemma_checksum_idempotent(d: Seq<u8>, field: int)
    requires
        0 <= field,
        field + 4 <= d.len(),
    ensures
        with_checksum(with_checksum(d, field), field) == with_checksum(d, field),
{
    let zero = seq![0u8, 0u8, 0u8, 0u8];
    let z = splice(d, field, zero);
    lemma_splice(d, field, zero);
    let c = le32(spec_checksum(z));
    lemma_splice_twice(z, field, c, zero);
    lemma_splice_twice(d, field, zero, zero);
}

pub proof fn lemma_word_sum_bound(d: Seq<u8>, k: nat)
    ensures
        0 <= word_sum(d, k) <= 0xFFFF_FFFF,
    decreases k,
{
    if k > 0 {
        lemma_word_sum_bound(d, (k - 1) as nat);
        let s = word_sum(d, (k - 1) as nat) + spec_u16(d, 2 * (k - 1));
        assert(0 <= spec_u16(d, 2 * (k - 1)) <= 0xFFFF) by {
            assert(0 <= d[2 * (k - 1)] <= 255);
            assert(0 <= d[2 * (k - 1) + 1] <= 255);
        }
        if s > 0xFFFF_FFFF {
            assert(s / 0x1_0000_0000 == 1);
        }
    }
}

/// The `u32` optional-header field at `field`.
pub open spec fn spec_opt_u32(d: Seq<u8>, opt: int, field: int) -> int {
    spec_u32(d, opt + field)
}

/// The optional-header field at `field` lies inside the file.
pub open spec fn opt_field_in_bounds(d: Seq<u8>, opt: int, field: int) -> bool {
    opt + field + 4 <= d.len()
}

/// The section headers of a table of `count` entries at `table`.
pub open spec fn spec_sections(d: Seq<u8>, table: int, count: int) -> Seq<Section> {
    Seq::new(count as nat, |i: int| spec_section_at(d, table, i))
}

/// Every section header of the table lies inside the file.
pub open spec fn sections_in_bounds(d: Seq<u8>, table: int, count: int) -> bool {
    count == 0 || table + (count - 1) * 40 + 24 <= d.len()
}

/// The data directory entry `index`: (rva or offset, size).
pub open spec fn spec_data_directory(d: Seq<u8>, opt: int, index: int) -> (int, int) {
    let o = opt + OPT_DATA_DIRECTORIES + index * 8;
    (spec_u32(d, o), spec_u32(d, o + 4))
}

/// The data directory entry `index` lies inside the file.
pub open spec fn directory_in_bounds(d: Seq<u8>, opt: int, index: int) -> bool {
    opt + OPT_DATA_DIRECTORIES + index * 8 + 8 <= d.len()
}


// ---------------------------------------------------------------- .NET metadata root

/// Where `metadata_root_offset` finds the `BSJB` metadata root, or why it fails.
pub open spec fn spec_metadata_root(d: Seq<u8>, opt: int, table: int, count: int) -> Result<int, PeError> {
    let secs = spec_sections(d, table, count);
    let (clr_rva, clr_size) = spec_data_directory(d, opt, DIR_CLR as int);
    if !(clr_rva != 0 && clr_size >= 0x48) {
        Err(PeError::NotDotNet)
    } else {
        match spec_rva_lookup(secs, clr_rva, 0) {
            None => Err(PeError::ClrHeaderUnmapped),
            Some(cli) => match spec_rva_lookup(secs, spec_u32(d, cli + 8), 0) {
                None => Err(PeError::MetadataUnmapped),
                Some(m) => if d[m] == 0x42 && d[m + 1] == 0x53 && d[m + 2] == 0x4A && d[m + 3] == 0x42 {
                    Ok(m)
                } else {
                    Err(PeError::MissingMetadataSignature)
                },
            },
        }
    }
}

/// Every read `metadata_root_offset` makes is in bounds and its arithmetic fits.
pub open spec fn metadata_root_reads_ok(d: Seq<u8>, opt: int, table: int, count: int) -> bool {
    let secs = spec_sections(d, table, count);
    let (clr_rva, clr_size) = spec_data_directory(d, opt, DIR_CLR as int);
    &&& directory_in_bounds(d, opt, DIR_CLR as int)
    &&& (clr_rva != 0 && clr_size >= 0x48) ==> {
        &&& sections_in_bounds(d, table, count)
        &&& rva_lookup_fits(secs, clr_rva, 0)
        &&& spec_rva_lookup(secs, clr_rva, 0) matches Some(cli) ==> {
            &&& cli + 12 <= d.len()
            &&& rva_lookup_fits(secs, spec_u32(d, cli + 8), 0)
            &&& spec_rva_lookup(secs, spec_u32(d, cli + 8), 0) matches Some(m) ==> m + 4 <= d.len()
        }
    }
}

// ---------------------------------------------------------------- appending a section

/// `d` cut or zero-extended to length `n`, as `Vec::resize(n, 0)` leaves it.
pub open spec fn spec_resize(d: Seq<u8>, n: int) -> Seq<u8> {
    if n <= d.len() {
        d.subrange(0, n)
    } else {
        d + Seq::new((n - d.len()) as nat, |i: int| 0u8)
    }
}

/// The 8-byte section name field: the first 8 name bytes, zero-padded.
pub open spec fn spec_name8(name: Seq<u8>) -> Seq<u8> {
    Seq::new(8, |i: int| if i < name.len() { name[i] } else { 0u8 })
}

/// The 40 bytes of a section header.
pub open spec fn section_header_bytes(
    name8: Seq<u8>,
    virtual_size: int,
    virtual_address: int,
    raw_size: int,
    raw_pointer: int,
    characteristics: int,
) -> Seq<u8> {
    name8 + le32(virtual_size) + le32(virtual_address) + le32(raw_size) + le32(raw_pointer)
        + Seq::new(12, |i: int| 0u8) + le32(characteristics)
}

/// Drops a certificate that ends the file and clears the security directory.
pub open spec fn strip_certificate(d: Seq<u8>, opt: int) -> Seq<u8> {
    let (off, size) = spec_data_directory(d, opt, DIR_SECURITY as int);
    let o = opt + OPT_DATA_DIRECTORIES + DIR_SECURITY * 8;
    if off != 0 && size != 0 {
        let t = if off + size == d.len() { d.subrange(0, off) } else { d };
        splice(splice(t, o, le32(0)), o + 4, le32(0))
    } else {
        d
    }
}

/// End of a section's mapped extent.
pub open spec fn section_end(s: Section) -> int {
    s.virtual_address + span(s)
}

/// The largest section end among `secs` (0 for none).
pub open spec fn spec_max_end(secs: Seq<Section>) -> int
    decreases secs.len(),
{
    if secs.len() == 0 {
        0
    } else {
        let m = spec_max_end(secs.drop_last());
        let e = section_end(secs.last());
        if m >= e { m } else { e }
    }
}

/// Every section end fits in `u32`.
pub open spec fn section_ends_fit(secs: Seq<Section>) -> bool {
    forall|i: int| 0 <= i < secs.len() ==> section_end(#[trigger] secs[i]) <= u32::MAX
}

/// The values `append_section` computes once its checks pass.
pub struct AppendPlan {
    pub stripped: Seq<u8>,
    pub new_va: u32,
    pub raw_start: u32,
    pub raw_size: u32,
    pub virtual_size: u32,
}

/// The plan `append_section` follows on an image that passed its checks.
pub open spec fn append_plan(d0: Seq<u8>, opt: int, table: int, count: int, payload: Seq<u8>) -> AppendPlan {
    let fa = spec_u32(d0, opt + OPT_FILE_ALIGNMENT) as u32;
    let sa = spec_u32(d0, opt + OPT_SECTION_ALIGNMENT) as u32;
    let d1 = strip_certificate(d0, opt);
    AppendPlan {
        stripped: d1,
        new_va: spec_align_up(spec_max_end(spec_sections(d1, table, count)) as u32, sa),
        raw_start: spec_align_up(d1.len() as u32, fa),
        raw_size: spec_align_up(payload.len() as u32, fa),
        virtual_size: payload.len() as u32,
    }
}

/// The image bytes after the payload and the new header are in place,
/// before the section count, `SizeOfImage` and checksum are updated.
pub open spec fn appended_bytes(
    plan: AppendPlan,
    table: int,
    count: int,
    name: Seq<u8>,
    payload: Seq<u8>,
    characteristics: u32,
) -> Seq<u8> {
    let d2 = spec_resize(spec_resize(plan.stripped, plan.raw_start as int) + payload, plan.raw_start + plan.raw_size);
    splice(
        d2,
        table + count * 40,
        section_header_bytes(
            spec_name8(name),
            plan.virtual_size as int,
            plan.new_va as int,
            plan.raw_size as int,
            plan.raw_start as int,
            characteristics as int,
        ),
    )
}

/// The image after the append, once the alignment and header-room checks passed.
#[verifier::opaque]
pub open spec fn appended_image(
    d0: Seq<u8>,
    coff: int,
    opt: int,
    table: int,
    count: int,
    name: Seq<u8>,
    payload: Seq<u8>,
    characteristics: u32,
) -> Seq<u8> {
    let sa = spec_u32(d0, opt + OPT_SECTION_ALIGNMENT) as u32;
    let plan = append_plan(d0, opt, table, count, payload);
    let d3 = appended_bytes(plan, table, count, name, payload, characteristics);
    let d4 = splice(d3, coff + 2, le16(((count + 1) as u16) as int));
    let d5 = splice(d4, opt + OPT_SIZE_OF_IMAGE, le32(spec_align_up((plan.new_va + plan.virtual_size) as u32, sa) as int));
    with_checksum(d5, opt + OPT_CHECKSUM)
}

/// Alignments are non-zero and the header area has room for one more section header.
pub open spec fn append_checks_pass(d0: Seq<u8>, opt: int, table: int, count: int) -> bool {
    &&& spec_u32(d0, opt + OPT_FILE_ALIGNMENT) != 0
    &&& spec_u32(d0, opt + OPT_SECTION_ALIGNMENT) != 0
    &&& table + (count + 1) * 40 <= spec_u32(d0, opt + OPT_SIZE_OF_HEADERS)
}

/// What `append_section` returns and leaves in the image: the new bytes and the new section's RVA.
pub open spec fn spec_append(
    d0: Seq<u8>,
    coff: int,
    opt: int,
    table: int,
    count: int,
    name: Seq<u8>,
    payload: Seq<u8>,
    characteristics: u32,
) -> Result<(Seq<u8>, u32), PeError> {
    if spec_u32(d0, opt + OPT_FILE_ALIGNMENT) == 0 || spec_u32(d0, opt + OPT_SECTION_ALIGNMENT) == 0 {
        Err(PeError::InvalidAlignment)
    } else if table + (count + 1) * 40 > spec_u32(d0, opt + OPT_SIZE_OF_HEADERS) {
        Err(PeError::NoRoomForSectionHeader)
    } else {
        Ok((
            appended_image(d0, coff, opt, table, count, name, payload, characteristics),
            append_plan(d0, opt, table, count, payload).new_va,
        ))
    }
}

/// The certificate step's reads and `u32` sum are in bounds.
pub open spec fn strip_reads_ok(d0: Seq<u8>, opt: int) -> bool {
    let (off, size) = spec_data_directory(d0, opt, DIR_SECURITY as int);
    &&& directory_in_bounds(d0, opt, DIR_SECURITY as int)
    &&& (off != 0 && size != 0) ==> {
        &&& off + size <= u32::MAX
        &&& (off + size == d0.len() ==> opt + OPT_DATA_DIRECTORIES + DIR_SECURITY * 8 + 8 <= off)
    }
}

/// Once the checks passed, every later read and write is in bounds and the `u32` arithmetic fits.
#[verifier::opaque]
pub open spec fn append_steps_ok(
    d0: Seq<u8>,
    coff: int,
    opt: int,
    table: int,
    count: int,
    name: Seq<u8>,
    payload: Seq<u8>,
    characteristics: u32,
) -> bool {
    let fa = spec_u32(d0, opt + OPT_FILE_ALIGNMENT) as u32;
    let sa = spec_u32(d0, opt + OPT_SECTION_ALIGNMENT) as u32;
    let plan = append_plan(d0, opt, table, count, payload);
    let d1 = plan.stripped;
    let secs = spec_sections(d1, table, count);
    let d3 = appended_bytes(plan, table, count, name, payload, characteristics);
    let d4 = splice(d3, coff + 2, le16(((count + 1) as u16) as int));
    let d5 = splice(d4, opt + OPT_SIZE_OF_IMAGE, le32(spec_align_up((plan.new_va + plan.virtual_size) as u32, sa) as int));
    &&& strip_reads_ok(d0, opt)
    &&& sections_in_bounds(d1, table, count)
    &&& section_ends_fit(secs)
    &&& spec_max_end(secs) + sa <= u32::MAX
    &&& (d1.len() as u32) + fa <= u32::MAX
    &&& (payload.len() as u32) + fa <= u32::MAX
    &&& plan.raw_start + plan.raw_size <= u32::MAX
    &&& table + count * 40 + 40 <= plan.raw_start + plan.raw_size
    &&& plan.new_va + plan.virtual_size + sa <= u32::MAX
    &&& opt + OPT_CHECKSUM + 4 <= plan.raw_start + plan.raw_size
    &&& checksum_fits(splice(d5, opt + OPT_CHECKSUM, seq![0u8, 0u8, 0u8, 0u8]))
}

/// Every read and write of `append_section` is in bounds and its `u32` arithmetic fits.
pub open spec fn append_reads_ok(
    d0: Seq<u8>,
    coff: int,
    opt: int,
    table: int,
    count: int,
    name: Seq<u8>,
    payload: Seq<u8>,
    characteristics: u32,
) -> bool {
    &&& opt + OPT_FILE_ALIGNMENT + 4 <= d0.len()
    &&& (spec_u32(d0, opt + OPT_FILE_ALIGNMENT) != 0 && spec_u32(d0, opt + OPT_SECTION_ALIGNMENT) != 0)
        ==> opt + OPT_SIZE_OF_HEADERS + 4 <= d0.len()
    &&& append_checks_pass(d0, opt, table, count)
        ==> append_steps_ok(d0, coff, opt, table, count, name, payload, characteristics)
}

impl PeImage {
    /// File offset of the COFF header.
    pub open spec fn coff(&self) -> int {
        self.coff_offset as int
    }

    /// File offset of the optional header.
    pub open spec fn opt(&self) -> int {
        self.opt_offset as int
    }

    /// File offset of the section table.
    pub open spec fn table(&self) -> int {
        self.section_table_offset as int
    }

    /// Number of section headers the image has.
    pub open spec fn count(&self) -> int {
        self.num_sections as int
    }

    /// The layout facts `parse` establishes and every method keeps.
    pub open spec fn wf(&self) -> bool {
        &&& self.opt_offset == self.coff_offset + 20
        &&& self.num_sections <= 0x10000
        &&& self.opt_offset <= isize::MAX
        &&& self.section_table_offset <= self.opt_offset + 0xFFFF
    }

    /// Parses the DOS, COFF and optional headers of a PE32+ image.
    pub fn parse(data: Vec<u8>) -> (res: Result<Self, PeError>)
        requires
            parse_reads_ok(data@),
            data@.len() <= isize::MAX,
        ensures
            match res {
                Ok(pe) => {
                    &&& spec_parse_error(data@) is None
                    &&& pe.wf()
                    &&& pe.data@ == data@
                    &&& pe.coff() == spec_pe_offset(data@) + 4
                    &&& pe.opt() == spec_pe_offset(data@) + 24
                    &&& pe.count() == spec_u16(data@, spec_pe_offset(data@) + 6)
                    &&& pe.table() == spec_pe_offset(data@) + 24 + spec_u16(data@, spec_pe_offset(data@) + 20)
                },
                Err(e) => spec_parse_error(data@) == Some(e),
            },
    {
        if data.len() <= 0x40 {
            return Err(PeError::TooSmall);
        }
        if !(data[0] == 0x4D && data[1] == 0x5A) {
            return Err(PeError::MissingMz);
        }
        let pe_offset = rd_u32(data.as_slice(), 0x3C) as usize;
        if !(pe_offset < data.len() - 24 && data[pe_offset] == 0x50 && data[pe_offset + 1] == 0x45
            && data[pe_offset + 2] == 0 && data[pe_offset + 3] == 0) {
            return Err(PeError::MissingPeSignature);
        }
        let coff_offset = pe_offset + 4;
        let opt_offset = coff_offset + 20;
        let magic = rd_u16(data.as_slice(), opt_offset + OPT_MAGIC);
        if magic != PE32PLUS_MAGIC {
            return Err(PeError::NotPe32Plus(magic));
        }
        let num_sections = rd_u16(data.as_slice(), coff_offset + 2) as usize;
        let size_of_optional = rd_u16(data.as_slice(), coff_offset + 16) as usize;
        let section_table_offset = opt_offset + size_of_optional;
        Ok(PeImage { data, coff_offset, opt_offset, section_table_offset, num_sections })
    }

    fn opt_u32(&self, field: usize) -> (r: u32)
        requires
            opt_field_in_bounds(self.data@, self.opt(), field as int),
        ensures
            r == spec_opt_u32(self.data@, self.opt(), field as int),
    {
        assert(self.data@.len() == self.data.len());
        rd_u32(self.data.as_slice(), self.opt_offset + field)
    }

    fn set_opt_u32(&mut self, field: usize, v: u32)
        requires
            opt_field_in_bounds(old(self).data@, old(self).opt(), field as int),
        ensures
            final(self).data@ == splice(old(self).data@, old(self).opt() + field, le32(v as int)),
            final(self).coff() == old(self).coff(),
            final(self).opt() == old(self).opt(),
            final(self).table() == old(self).table(),
            final(self).count() == old(self).count(),
            final(self).wf() == old(self).wf(),
    {
        assert(self.data@.len() == self.data.len());
        let o = self.opt_offset + field;
        write_u32_le(&mut self.data, o, v);
    }

    /// `FileAlignment` from the optional header.
    pub fn file_alignment(&self) -> (r: u32)
        requires
            opt_field_in_bounds(self.data@, self.opt(), OPT_FILE_ALIGNMENT as int),
        ensures
            r == spec_opt_u32(self.data@, self.opt(), OPT_FILE_ALIGNMENT as int),
    {
        self.opt_u32(OPT_FILE_ALIGNMENT)
    }

    /// `SectionAlignment` from the optional header.
    pub fn section_alignment(&self) -> (r: u32)
        requires
            opt_field_in_bounds(self.data@, self.opt(), OPT_SECTION_ALIGNMENT as int),
        ensures
            r == spec_opt_u32(self.data@, self.opt(), OPT_SECTION_ALIGNMENT as int),
    {
        self.opt_u32(OPT_SECTION_ALIGNMENT)
    }

    /// `SizeOfHeaders` from the optional header.
    pub fn size_of_headers(&self) -> (r: u32)
        requires
            opt_field_in_bounds(self.data@, self.opt(), OPT_SIZE_OF_HEADERS as int),
        ensures
            r == spec_opt_u32(self.data@, self.opt(), OPT_SIZE_OF_HEADERS as int),
    {
        self.opt_u32(OPT_SIZE_OF_HEADERS)
    }

    /// The section header at index `i`.
    pub fn section(&self, i: usize) -> (s: Section)
        requires
            self.table() + i * 40 + 24 <= self.data@.len(),
        ensures
            s == spec_section_at(self.data@, self.table(), i as int),
    {
        assert(self.data@.len() == self.data.len());
        let o = self.section_table_offset + i * SECTION_HEADER_SIZE;
        let d = self.data.as_slice();
        Section {
            virtual_size: rd_u32(d, o + 8),
            virtual_address: rd_u32(d, o + 12),
            raw_size: rd_u32(d, o + 16),
            raw_pointer: rd_u32(d, o + 20),
        }
    }

    /// All section headers, in table order.
    pub fn sections(&self) -> (r: Vec<Section>)
        requires
            sections_in_bounds(self.data@, self.table(), self.count()),
        ensures
            r@ == spec_sections(self.data@, self.table(), self.count()),
    {
        let mut r: Vec<Section> = Vec::new();
        let mut i: usize = 0;
        while i < self.num_sections
            invariant
                sections_in_bounds(self.data@, self.table(), self.count()),
                i <= self.count(),
                r@.len() == i,
                forall|j: int| 0 <= j < i ==> r@[j] == spec_section_at(self.data@, self.table(), j),
            decreases self.count() - i,
        {
            r.push(self.section(i));
            i = i + 1;
        }
        assert(r@ =~= spec_sections(self.data@, self.table(), self.count()));
        r
    }

    /// Maps an RVA to a file offset through the first section that contains it.
    pub fn rva_to_offset(&self, rva: u32) -> (r: Option<usize>)
        requires
            sections_in_bounds(self.data@, self.table(), self.count()),
            rva_lookup_fits(spec_sections(self.data@, self.table(), self.count()), rva as int, 0),
        ensures
            match r {
                Some(o) => spec_rva_lookup(spec_sections(self.data@, self.table(), self.count()), rva as int, 0) == Some(o as int),
                None => spec_rva_lookup(spec_sections(self.data@, self.table(), self.count()), rva as int, 0) is None,
            },
    {
        let ghost secs = spec_sections(self.data@, self.table(), self.count());
        let mut i: usize = 0;
        while i < self.num_sections
            invariant
                sections_in_bounds(self.data@, self.table(), self.count()),
                secs == spec_sections(self.data@, self.table(), self.count()),
                i <= self.count(),
                spec_rva_lookup(secs, rva as int, 0) == spec_rva_lookup(secs, rva as int, i as int),
                rva_lookup_fits(secs, rva as int, i as int),
            decreases self.count() - i,
        {
            let s = self.section(i);
            assert(s == secs[i as int]);
            let span = if s.virtual_size >= s.raw_size { s.virtual_size } else { s.raw_size };
            if rva >= s.virtual_address && rva < s.virtual_address + span {
                return Some((s.raw_pointer + (rva - s.virtual_address)) as usize);
            }
            i = i + 1;
        }
        None
    }

    /// The data directory entry `index`: (rva or file offset, size).
    pub fn data_directory(&self, index: usize) -> (r: (u32, u32))
        requires
            directory_in_bounds(self.data@, self.opt(), index as int),
        ensures
            r.0 == spec_data_directory(self.data@, self.opt(), index as int).0,
            r.1 == spec_data_directory(self.data@, self.opt(), index as int).1,
    {
        assert(self.data@.len() == self.data.len());
        let o = self.opt_offset + OPT_DATA_DIRECTORIES + index * 8;
        (rd_u32(self.data.as_slice(), o), rd_u32(self.data.as_slice(), o + 4))
    }

    fn set_data_directory(&mut self, index: usize, rva: u32, size: u32)
        requires
            directory_in_bounds(old(self).data@, old(self).opt(), index as int),
        ensures
            final(self).data@ == splice(
                splice(old(self).data@, old(self).opt() + OPT_DATA_DIRECTORIES + index * 8, le32(rva as int)),
                old(self).opt() + OPT_DATA_DIRECTORIES + index * 8 + 4,
                le32(size as int),
            ),
            final(self).coff() == old(self).coff(),
            final(self).opt() == old(self).opt(),
            final(self).table() == old(self).table(),
            final(self).count() == old(self).count(),
            final(self).wf() == old(self).wf(),
    {
        assert(self.data@.len() == self.data.len());
        let o = self.opt_offset + OPT_DATA_DIRECTORIES + index * 8;
        write_u32_le(&mut self.data, o, rva);
        write_u32_le(&mut self.data, o + 4, size);
    }

    /// Writes a little-endian `u32` at file offset `offset`.
    pub fn write_u32_at(&mut self, offset: usize, v: u32)
        requires
            offset + 4 <= old(self).data@.len(),
        ensures
            final(self).data@ == splice(old(self).data@, offset as int, le32(v as int)),
            final(self).coff() == old(self).coff(),
            final(self).opt() == old(self).opt(),
            final(self).table() == old(self).table(),
            final(self).count() == old(self).count(),
            final(self).wf() == old(self).wf(),
    {
        assert(self.data@.len() == self.data.len());
        write_u32_le(&mut self.data, offset, v);
    }

    /// Recomputes the PE checksum by the standard algorithm and stores it.
    ///
    /// The checksum field counts as zero while the sum is taken, so the result
    /// does not depend on what the field held before.
    pub fn update_checksum(&mut self)
        requires
            opt_field_in_bounds(old(self).data@, old(self).opt(), OPT_CHECKSUM as int),
            checksum_fits(splice(old(self).data@, old(self).opt() + OPT_CHECKSUM, seq![0u8, 0u8, 0u8, 0u8])),
        ensures
            final(self).data@ == with_checksum(old(self).data@, old(self).opt() + OPT_CHECKSUM),
            final(self).coff() == old(self).coff(),
            final(self).opt() == old(self).opt(),
            final(self).table() == old(self).table(),
            final(self).count() == old(self).count(),
            final(self).wf() == old(self).wf(),
    {
        assert(self.data@.len() == self.data.len());
        let checksum_field = self.opt_offset + OPT_CHECKSUM;
        write_u32_le(&mut self.data, checksum_field, 0);
        assert(le32(0) =~= seq![0u8, 0u8, 0u8, 0u8]);
        let ghost z = self.data@;
        let mut sum: u64 = 0;
        let mut i: usize = 0;
        let len = self.data.len();
        while i + 1 < len
            invariant
                self.data@ == z,
                len == z.len(),
                i % 2 == 0,
                i <= len,
                sum == word_sum(z, (i / 2) as nat),
            decreases len - i,
        {
            proof {
                lemma_word_sum_bound(z, (i / 2) as nat);
            }
            sum = sum + rd_u16(self.data.as_slice(), i) as u64;
            assert((i + 2) / 2 == i / 2 + 1);
            if sum > 0xFFFF_FFFF {
                sum = sum % 0x1_0000_0000 + sum / 0x1_0000_0000;
            }
            i = i + 2;
        }
        proof {
            lemma_word_sum_bound(z, (i / 2) as nat);
            assert(i / 2 == len / 2);
        }
        if i < len {
            sum = sum + self.data[i] as u64;
        }
        sum = sum % 0x10000 + sum / 0x10000;
        sum = sum + sum / 0x10000;
        sum = sum % 0x10000;
        let checksum = sum as u32 + #[verifier::truncate] (len as u32);
        write_u32_le(&mut self.data, checksum_field, checksum);
    }


    /// Drops a certificate that ends the file and clears the security directory.
    fn strip_certificate(&mut self)
        requires
            old(self).wf(),
            directory_in_bounds(old(self).data@, old(self).opt(), DIR_SECURITY as int),
            ({
                let (off, size) = spec_data_directory(old(self).data@, old(self).opt(), DIR_SECURITY as int);
                (off != 0 && size != 0) ==> {
                    &&& off + size <= u32::MAX
                    &&& (off + size == old(self).data@.len() ==> old(self).opt() + OPT_DATA_DIRECTORIES
                        + DIR_SECURITY * 8 + 8 <= off)
                }
            }),
        ensures
            final(self).data@ == strip_certificate(old(self).data@, old(self).opt()),
            final(self).coff() == old(self).coff(),
            final(self).opt() == old(self).opt(),
            final(self).table() == old(self).table(),
            final(self).count() == old(self).count(),
            final(self).wf(),
    {
        assert(self.data@.len() == self.data.len());
        let (sec_off, sec_size) = self.data_directory(DIR_SECURITY);
        if sec_off != 0 && sec_size != 0 {
            let end = (sec_off + sec_size) as usize;
            if end == self.data.len() {
                self.data.truncate(sec_off as usize);
            }
            self.set_data_directory(DIR_SECURITY, 0, 0);
        }
    }

    /// The largest end of any section's mapped extent.
    fn max_section_end(&self) -> (r: u32)
        requires
            sections_in_bounds(self.data@, self.table(), self.count()),
            section_ends_fit(spec_sections(self.data@, self.table(), self.count())),
        ensures
            r == spec_max_end(spec_sections(self.data@, self.table(), self.count())),
    {
        let ghost secs = spec_sections(self.data@, self.table(), self.count());
        let mut max_rva_end: u32 = 0;
        let mut i: usize = 0;
        while i < self.num_sections
            invariant
                secs == spec_sections(self.data@, self.table(), self.count()),
                sections_in_bounds(self.data@, self.table(), self.count()),
                section_ends_fit(secs),
                i <= self.count(),
                max_rva_end == spec_max_end(secs.take(i as int)),
            decreases self.count() - i,
        {
            let s = self.section(i);
            assert(s == secs[i as int]);
            assert(secs.take(i + 1).drop_last() =~= secs.take(i as int));
            let span = if s.virtual_size >= s.raw_size { s.virtual_size } else { s.raw_size };
            let e = s.virtual_address + span;
            if e > max_rva_end {
                max_rva_end = e;
            }
            i = i + 1;
        }
        assert(secs.take(self.count()) =~= secs);
        max_rva_end
    }

    /// Appends a section holding `payload` and returns its RVA.
    ///
    /// Any Authenticode certificate at the end of the file is dropped and the
    /// security directory cleared, since the change invalidates the signature;
    /// the section count and `SizeOfImage` are updated and the checksum is
    /// recomputed last.
    pub fn append_section(&mut self, name: &str, payload: &[u8], characteristics: u32) -> (res: Result<u32, PeError>)
        requires
            old(self).wf(),
            old(self).data@.len() <= u32::MAX,
            append_reads_ok(
                old(self).data@,
                old(self).coff(),
                old(self).opt(),
                old(self).table(),
                old(self).count(),
                name.spec_bytes(),
                payload@,
                characteristics,
            ),
        ensures
            match spec_append(
                old(self).data@,
                old(self).coff(),
                old(self).opt(),
                old(self).table(),
                old(self).count(),
                name.spec_bytes(),
                payload@,
                characteristics,
            ) {
                Ok((d, va)) => res == Ok::<u32, PeError>(va) && final(self).data@ == d
                    && final(self).count() == old(self).count() + 1,
                Err(e) => res == Err::<u32, PeError>(e) && final(self).data@ == old(self).data@
                    && final(self).count() == old(self).count(),
            },
            final(self).coff() == old(self).coff(),
            final(self).opt() == old(self).opt(),
            final(self).table() == old(self).table(),
    {
        assert(self.data@.len() == self.data.len());
        let file_align = self.file_alignment();
        let sect_align = self.section_alignment();
        if !(file_align != 0 && sect_align != 0) {
            return Err(PeError::InvalidAlignment);
        }
        let new_header_end = self.section_table_offset + (self.num_sections + 1) * SECTION_HEADER_SIZE;
        if !(new_header_end <= self.size_of_headers() as usize) {
            return Err(PeError::NoRoomForSectionHeader);
        }
        let new_va = self.append_checked(name, payload, characteristics, file_align, sect_align);
        Ok(new_va)
    }

    fn append_checked(&mut self, name: &str, payload: &[u8], characteristics: u32, file_align: u32, sect_align: u32) -> (new_va: u32)
        requires
            old(self).wf(),
            old(self).data@.len() <= u32::MAX,
            append_checks_pass(old(self).data@, old(self).opt(), old(self).table(), old(self).count()),
            file_align == spec_u32(old(self).data@, old(self).opt() + OPT_FILE_ALIGNMENT),
            sect_align == spec_u32(old(self).data@, old(self).opt() + OPT_SECTION_ALIGNMENT),
            append_steps_ok(
                old(self).data@,
                old(self).coff(),
                old(self).opt(),
                old(self).table(),
                old(self).count(),
                name.spec_bytes(),
                payload@,
                characteristics,
            ),
        ensures
            final(self).data@ == appended_image(
                old(self).data@,
                old(self).coff(),
                old(self).opt(),
                old(self).table(),
                old(self).count(),
                name.spec_bytes(),
                payload@,
                characteristics,
            ),
            new_va == append_plan(old(self).data@, old(self).opt(), old(self).table(), old(self).count(), payload@).new_va,
            final(self).count() == old(self).count() + 1,
            final(self).coff() == old(self).coff(),
            final(self).opt() == old(self).opt(),
            final(self).table() == old(self).table(),
    {
        let ghost d0 = self.data@;
        let ghost n = self.count();
        let ghost opt = self.opt();
        let ghost coff = self.coff();
        let ghost table = self.table();
        let ghost plan = append_plan(d0, opt, table, n, payload@);
        proof {
            reveal(append_steps_ok);
        }
        let (new_va, raw_start, raw_size) = self.append_plan_values(payload, file_align, sect_align);
        let virtual_size = #[verifier::truncate] (payload.len() as u32);
        self.append_payload_and_header(name, payload, characteristics, new_va, raw_start, raw_size);
        assert(self.data@ == appended_bytes(plan, table, n, name.spec_bytes(), payload@, characteristics));
        proof {
            lemma_splice(self.data@, coff + 2, le16(((n + 1) as u16) as int));
        }
        self.finish_append(new_va, virtual_size, sect_align);
        assert(self.data@ == appended_image(d0, coff, opt, table, n, name.spec_bytes(), payload@, characteristics)) by {
            reveal(appended_image);
        }
        new_va
    }

    /// Strips the certificate and computes where the new section goes.
    fn append_plan_values(&mut self, payload: &[u8], file_align: u32, sect_align: u32) -> (r: (u32, u32, u32))
        requires
            old(self).wf(),
            old(self).data@.len() <= u32::MAX,
            file_align == spec_u32(old(self).data@, old(self).opt() + OPT_FILE_ALIGNMENT),
            sect_align == spec_u32(old(self).data@, old(self).opt() + OPT_SECTION_ALIGNMENT),
            file_align != 0,
            sect_align != 0,
            ({
                let plan = append_plan(old(self).data@, old(self).opt(), old(self).table(), old(self).count(), payload@);
                let secs = spec_sections(plan.stripped, old(self).table(), old(self).count());
                &&& strip_reads_ok(old(self).data@, old(self).opt())
                &&& sections_in_bounds(plan.stripped, old(self).table(), old(self).count())
                &&& section_ends_fit(secs)
                &&& spec_max_end(secs) + sect_align <= u32::MAX
                &&& (plan.stripped.len() as u32) + file_align <= u32::MAX
                &&& (payload@.len() as u32) + file_align <= u32::MAX
            }),
        ensures
            ({
                let plan = append_plan(old(self).data@, old(self).opt(), old(self).table(), old(self).count(), payload@);
                &&& final(self).data@ == plan.stripped
                &&& r.0 == plan.new_va
                &&& r.1 == plan.raw_start
                &&& r.2 == plan.raw_size
            }),
            final(self).wf(),
            final(self).count() == old(self).count(),
            final(self).coff() == old(self).coff(),
            final(self).opt() == old(self).opt(),
            final(self).table() == old(self).table(),
    {
        self.strip_certificate();
        let max_rva_end = self.max_section_end();
        let new_va = align_up(max_rva_end, sect_align);
        assert(self.data@.len() == self.data.len());
        let len_u32 = #[verifier::truncate] (self.data.len() as u32);
        let raw_start = align_up(len_u32, file_align);
        let payload_len_u32 = #[verifier::truncate] (payload.len() as u32);
        let raw_size = align_up(payload_len_u32, file_align);
        (new_va, raw_start, raw_size)
    }

    /// Appends the padded payload and writes the new section header.
    fn append_payload_and_header(
        &mut self,
        name: &str,
        payload: &[u8],
        characteristics: u32,
        new_va: u32,
        raw_start: u32,
        raw_size: u32,
    )
        requires
            old(self).wf(),
            raw_start + raw_size <= u32::MAX,
            old(self).table() + old(self).count() * 40 + 40 <= raw_start + raw_size,
        ensures
            final(self).data@ == splice(
                spec_resize(spec_resize(old(self).data@, raw_start as int) + payload@, raw_start + raw_size),
                old(self).table() + old(self).count() * 40,
                section_header_bytes(
                    spec_name8(name.spec_bytes()),
                    (payload@.len() as u32) as int,
                    new_va as int,
                    raw_size as int,
                    raw_start as int,
                    characteristics as int,
                ),
            ),
            final(self).wf(),
            final(self).count() == old(self).count(),
            final(self).coff() == old(self).coff(),
            final(self).opt() == old(self).opt(),
            final(self).table() == old(self).table(),
    {
        place_payload(&mut self.data, raw_start, payload, raw_size);
        let ho = self.section_table_offset + self.num_sections * SECTION_HEADER_SIZE;
        let virtual_size = #[verifier::truncate] (payload.len() as u32);
        let header = section_header(name, virtual_size, new_va, raw_size, raw_start, characteristics);
        write_bytes_at(&mut self.data, ho, header.as_slice());
    }

    /// Bumps the section count, sets `SizeOfImage` and recomputes the checksum.
    fn finish_append(&mut self, new_va: u32, virtual_size: u32, sect_align: u32)
        requires
            old(self).wf(),
            sect_align >= 1,
            new_va + virtual_size + sect_align <= u32::MAX,
            old(self).opt() + OPT_CHECKSUM + 4 <= old(self).data@.len(),
            checksum_fits(splice(
                splice(
                    splice(old(self).data@, old(self).coff() + 2, le16(((old(self).count() + 1) as u16) as int)),
                    old(self).opt() + OPT_SIZE_OF_IMAGE,
                    le32(spec_align_up((new_va + virtual_size) as u32, sect_align) as int),
                ),
                old(self).opt() + OPT_CHECKSUM,
                seq![0u8, 0u8, 0u8, 0u8],
            )),
        ensures
            final(self).data@ == with_checksum(
                splice(
                    splice(old(self).data@, old(self).coff() + 2, le16(((old(self).count() + 1) as u16) as int)),
                    old(self).opt() + OPT_SIZE_OF_IMAGE,
                    le32(spec_align_up((new_va + virtual_size) as u32, sect_align) as int),
                ),
                old(self).opt() + OPT_CHECKSUM,
            ),
            final(self).count() == old(self).count() + 1,
            final(self).coff() == old(self).coff(),
            final(self).opt() == old(self).opt(),
            final(self).table() == old(self).table(),
    {
        assert(self.data@.len() == self.data.len());
        self.num_sections = self.num_sections + 1;
        let new_count = #[verifier::truncate] (self.num_sections as u16);
        let co = self.coff_offset + 2;
        write_u16_le(&mut self.data, co, new_count);
        let new_size_of_image = align_up(new_va + virtual_size, sect_align);
        self.set_opt_u32(OPT_SIZE_OF_IMAGE, new_size_of_image);
        self.update_checksum();
    }

    /// File offset of the .NET metadata root (`BSJB`).
    pub fn metadata_root_offset(&self) -> (res: Result<usize, PeError>)
        requires
            self.data@.len() <= u32::MAX,
            metadata_root_reads_ok(self.data@, self.opt(), self.table(), self.count()),
        ensures
            match res {
                Ok(m) => spec_metadata_root(self.data@, self.opt(), self.table(), self.count()) == Ok::<int, PeError>(m as int),
                Err(e) => spec_metadata_root(self.data@, self.opt(), self.table(), self.count()) == Err::<int, PeError>(e),
            },
    {
        let (clr_rva, clr_size) = self.data_directory(DIR_CLR);
        if !(clr_rva != 0 && clr_size >= 0x48) {
            return Err(PeError::NotDotNet);
        }
        let cli = match self.rva_to_offset(clr_rva) {
            Some(o) => o,
            None => return Err(PeError::ClrHeaderUnmapped),
        };
        let meta_rva = rd_u32(self.data.as_slice(), cli + 8);
        let moff = match self.rva_to_offset(meta_rva) {
            Some(o) => o,
            None => return Err(PeError::MetadataUnmapped),
        };
        if !(self.data[moff] == 0x42 && self.data[moff + 1] == 0x53 && self.data[moff + 2] == 0x4A
            && self.data[moff + 3] == 0x42) {
            return Err(PeError::MissingMetadataSignature);
        }
        Ok(moff)
    }
}

/// Resizes `data` to `raw_start`, appends `payload`, and pads or cuts the
/// result to `raw_start + raw_size` bytes.
fn place_payload(data: &mut Vec<u8>, raw_start: u32, payload: &[u8], raw_size: u32)
    requires
        raw_start + raw_size <= u32::MAX,
    ensures
        final(data)@ == spec_resize(spec_resize(old(data)@, raw_start as int) + payload@, raw_start + raw_size),
{
    data.resize(raw_start as usize, 0);
    let ghost d_resized = data@;
    assert(d_resized =~= spec_resize(old(data)@, raw_start as int));
    data.extend_from_slice(payload);
    assert(data@ =~= d_resized + payload@);
    let ghost d_ext = data@;
    data.resize((raw_start + raw_size) as usize, 0);
    assert(data@ =~= spec_resize(d_ext, raw_start + raw_size));
}

/// The 40 bytes of a section header.
fn section_header(
    name: &str,
    virtual_size: u32,
    virtual_address: u32,
    raw_size: u32,
    raw_start: u32,
    characteristics: u32,
) -> (header: Vec<u8>)
    ensures
        header@ == section_header_bytes(
            spec_name8(name.spec_bytes()),
            virtual_size as int,
            virtual_address as int,
            raw_size as int,
            raw_start as int,
            characteristics as int,
        ),
{
    let mut header: Vec<u8> = Vec::new();
    let nb = name.as_bytes();
    let mut k: usize = 0;
    while k < 8
        invariant
            nb@ == name.spec_bytes(),
            k <= 8,
            header@ =~= spec_name8(nb@).take(k as int),
        decreases 8 - k,
    {
        if k < nb.len() {
            header.push(nb[k]);
        } else {
            header.push(0);
        }
        k = k + 1;
    }
    assert(spec_name8(nb@).take(8) =~= spec_name8(nb@));
    let ghost name8 = header@;
    let b = u32_le_bytes(virtual_size);
    header.extend_from_slice(b.as_slice());
    let b = u32_le_bytes(virtual_address);
    header.extend_from_slice(b.as_slice());
    let b = u32_le_bytes(raw_size);
    header.extend_from_slice(b.as_slice());
    let b = u32_le_bytes(raw_start);
    header.extend_from_slice(b.as_slice());
    let ghost before_zeros = header@;
    let mut z: usize = 0;
    while z < 12
        invariant
            z <= 12,
            header@ =~= before_zeros + Seq::new(z as nat, |i: int| 0u8),
        decreases 12 - z,
    {
        header.push(0);
        z = z + 1;
    }
    let b = u32_le_bytes(characteristics);
    header.extend_from_slice(b.as_slice());
    assert(header@ =~= name8 + le32(virtual_size as int) + le32(virtual_address as int) + le32(raw_size as int)
        + le32(raw_start as int) + Seq::new(12, |i: int| 0u8) + le32(characteristics as int));
    header
}

/// Rounds `v` up by `(v + align - 1) & !(align - 1)`.
pub fn align_up(v: u32, align: u32) -> (r: u32)
    requires
        1 <= align,
        v + align <= u32::MAX,
    ensures
        r == spec_align_up(v, align),
{
    (v + align - 1) & !(align - 1)
}

/// For a power-of-two alignment, `align_up` gives the least multiple of
/// `align` that is not below `v`.
pub proof fn lemma_align_up_pow2(v: u32, align: u32)
    requires
        is_pow2(align),
        v + align <= u32::MAX,
    ensures
        spec_align_up(v, align) >= v,
        spec_align_up(v, align) < v + align,
        spec_align_up(v, align) % align == 0,
{
    let s = (v + align - 1) as u32;
    let m = (align - 1) as u32;
    assert(align & m == 0);
    assert((s & !m) <= s) by (bit_vector);
    assert(align & m == 0 && align != 0 ==> (s & !m) + (s & m) == s && (s & m) <= m) by (bit_vector);
    assert(align & m == 0 && align != 0 && m == align - 1 ==> (s & !m) % align == 0) by (bit_vector);
}

// ---------------------------------------------------------------- reading an appended section back

/// Every section ends no later than the largest section end.
proof fn lemma_max_end_bounds(secs: Seq<Section>)
    ensures
        spec_max_end(secs) >= 0,
        forall|i: int| 0 <= i < secs.len() ==> section_end(#[trigger] secs[i]) <= spec_max_end(secs),
    decreases secs.len(),
{
    if secs.len() > 0 {
        lemma_max_end_bounds(secs.drop_last());
        assert forall|i: int| 0 <= i < secs.len() implies section_end(#[trigger] secs[i]) <= spec_max_end(secs) by {
            if i < secs.len() - 1 {
                assert(secs[i] == secs.drop_last()[i]);
            }
        }
    }
}

/// The lookup passes over sections that end before `rva` and maps it in the
/// first section that holds it.
proof fn lemma_lookup_past(secs: Seq<Section>, rva: int, i: int, n: int)
    requires
        0 <= i <= n < secs.len(),
        forall|k: int| i <= k < n ==> section_end(#[trigger] secs[k]) <= rva,
        secs[n].virtual_address <= rva < secs[n].virtual_address + span(secs[n]),
    ensures
        spec_rva_lookup(secs, rva, i) == Some(secs[n].raw_pointer + (rva - secs[n].virtual_address)),
    decreases n - i,
{
    if i < n {
        assert(section_end(secs[i]) <= rva);
        lemma_lookup_past(secs, rva, i + 1, n);
    }
}

/// The section table, with room for one more header, lies inside the file
/// and before a certificate that ends it.
pub open spec fn room_for_header(d0: Seq<u8>, opt: int, table: int, count: int) -> bool {
    let (off, size) = spec_data_directory(d0, opt, DIR_SECURITY as int);
    &&& table + (count + 1) * 40 <= d0.len()
    &&& (off != 0 && size != 0 && off + size == d0.len()) ==> table + (count + 1) * 40 <= off
}

/// Writing below `lo` keeps the length and every byte from `lo` on.
proof fn lemma_splice_keeps_from(x: Seq<u8>, o: int, b: Seq<u8>, lo: int)
    requires
        0 <= o,
        o + b.len() <= lo,
        lo <= x.len(),
    ensures
        splice(x, o, b).len() == x.len(),
        forall|k: int| lo <= k < x.len() ==> #[trigger] splice(x, o, b)[k] == x[k],
{
    lemma_splice(x, o, b);
}

/// The stripped image grown to the raw start, the payload after it, and the
/// padding to the raw size.
proof fn lemma_grow(d1: Seq<u8>, r: int, rs: int, payload: Seq<u8>)
    requires
        d1.len() <= r,
        payload.len() <= rs,
    ensures
        spec_resize(spec_resize(d1, r) + payload, r + rs).len() == r + rs,
        forall|k: int| 0 <= k < d1.len() ==> #[trigger] spec_resize(spec_resize(d1, r) + payload, r + rs)[k] == d1[k],
        forall|j: int| 0 <= j < payload.len() ==> #[trigger] spec_resize(spec_resize(d1, r) + payload, r + rs)[r + j] == payload[j],
{
    let a = spec_resize(d1, r);
    let ap = a + payload;
    let d2 = spec_resize(ap, r + rs);
    assert(a.len() == r);
    assert forall|k: int| 0 <= k < d1.len() implies #[trigger] d2[k] == d1[k] by {
        assert(d2[k] == ap[k]);
        assert(ap[k] == a[k]);
    }
    assert forall|j: int| 0 <= j < payload.len() implies #[trigger] d2[r + j] == payload[j] by {
        assert(d2[r + j] == ap[r + j]);
    }
}

/// The header fields written after the new section header lie below the
/// section table, so the table and everything after it stay.
proof fn lemma_finish_keeps_table(d3: Seq<u8>, coff: int, opt: int, table: int, count_field: Seq<u8>, size_field: Seq<u8>)
    requires
        0 <= coff,
        coff + 4 <= opt + OPT_SIZE_OF_IMAGE,
        count_field.len() == 2,
        size_field.len() == 4,
        opt + OPT_CHECKSUM + 4 <= table,
        table <= d3.len(),
    ensures
        ({
            let d5 = splice(splice(d3, coff + 2, count_field), opt + OPT_SIZE_OF_IMAGE, size_field);
            let d = with_checksum(d5, opt + OPT_CHECKSUM);
            &&& d.len() == d3.len()
            &&& forall|k: int| table <= k < d3.len() ==> #[trigger] d[k] == d3[k]
        }),
{
    let d4 = splice(d3, coff + 2, count_field);
    lemma_splice_keeps_from(d3, coff + 2, count_field, table);
    let d5 = splice(d4, opt + OPT_SIZE_OF_IMAGE, size_field);
    lemma_splice_keeps_from(d4, opt + OPT_SIZE_OF_IMAGE, size_field, table);
    let z = splice(d5, opt + OPT_CHECKSUM, seq![0u8, 0u8, 0u8, 0u8]);
    lemma_splice_keeps_from(d5, opt + OPT_CHECKSUM, seq![0u8, 0u8, 0u8, 0u8], table);
    let d = splice(z, opt + OPT_CHECKSUM, le32(spec_checksum(z)));
    lemma_splice_keeps_from(z, opt + OPT_CHECKSUM, le32(spec_checksum(z)), table);
    assert forall|k: int| table <= k < d3.len() implies #[trigger] d[k] == d3[k] by {
        assert(d[k] == z[k]);
        assert(z[k] == d5[k]);
        assert(d5[k] == d4[k]);
    }
}

/// The bytes of an append, from the stripped image `d1`: grown to `r`, the
/// payload, padded to `r + rs`, the header `hb` at `h`, then the count, size
/// and checksum fields.
pub open spec fn append_result(
    d1: Seq<u8>,
    r: int,
    rs: int,
    payload: Seq<u8>,
    h: int,
    hb: Seq<u8>,
    coff: int,
    opt: int,
    cf: Seq<u8>,
    sf: Seq<u8>,
) -> Seq<u8> {
    let d3 = splice(spec_resize(spec_resize(d1, r) + payload, r + rs), h, hb);
    with_checksum(splice(splice(d3, coff + 2, cf), opt + OPT_SIZE_OF_IMAGE, sf), opt + OPT_CHECKSUM)
}

proof fn lemma_append_result(
    d1: Seq<u8>,
    r: int,
    rs: int,
    payload: Seq<u8>,
    h: int,
    hb: Seq<u8>,
    coff: int,
    opt: int,
    table: int,
    cf: Seq<u8>,
    sf: Seq<u8>,
)
    requires
        0 <= coff,
        coff + 4 <= opt + OPT_SIZE_OF_IMAGE,
        opt + OPT_CHECKSUM + 4 <= table,
        table <= h,
        hb.len() == 40,
        cf.len() == 2,
        sf.len() == 4,
        h + 40 <= d1.len(),
        d1.len() <= r,
        payload.len() <= rs,
    ensures
        ({
            let d = append_result(d1, r, rs, payload, h, hb, coff, opt, cf, sf);
            &&& d.len() == r + rs
            &&& forall|k: int| table <= k < h ==> #[trigger] d[k] == d1[k]
            &&& d.subrange(h, h + 40) == hb
            &&& forall|j: int| 0 <= j < payload.len() ==> #[trigger] d[r + j] == payload[j]
        }),
{
    lemma_grow(d1, r, rs, payload);
    let d2 = spec_resize(spec_resize(d1, r) + payload, r + rs);
    let d3 = splice(d2, h, hb);
    lemma_splice(d2, h, hb);
    lemma_finish_keeps_table(d3, coff, opt, table, cf, sf);
    let d = append_result(d1, r, rs, payload, h, hb, coff, opt, cf, sf);
    assert forall|k: int| table <= k < h implies #[trigger] d[k] == d1[k] by {
        assert(d[k] == d3[k]);
        assert(d3[k] == d2[k]);
    }
    assert(d.subrange(h, h + 40) =~= hb) by {
        assert forall|k: int| 0 <= k < 40 implies #[trigger] d.subrange(h, h + 40)[k] == hb[k] by {
            assert(d[h + k] == d3[h + k]);
            assert(d3.subrange(h, h + 40)[k] == d3[h + k]);
        }
    }
    assert forall|j: int| 0 <= j < payload.len() implies #[trigger] d[r + j] == payload[j] by {
        assert(d[r + j] == d3[r + j]);
        assert(d3[r + j] == d2[r + j]);
    }
}

/// The appended image is `append_result` of its plan.
proof fn lemma_appended_image_is_result(
    d0: Seq<u8>,
    coff: int,
    opt: int,
    table: int,
    count: int,
    name: Seq<u8>,
    payload: Seq<u8>,
    characteristics: u32,
)
    ensures
        ({
            let sa = spec_u32(d0, opt + OPT_SECTION_ALIGNMENT) as u32;
            let plan = append_plan(d0, opt, table, count, payload);
            appended_image(d0, coff, opt, table, count, name, payload, characteristics) == append_result(
                plan.stripped,
                plan.raw_start as int,
                plan.raw_size as int,
                payload,
                table + count * 40,
                section_header_bytes(
                    spec_name8(name),
                    plan.virtual_size as int,
                    plan.new_va as int,
                    plan.raw_size as int,
                    plan.raw_start as int,
                    characteristics as int,
                ),
                coff,
                opt,
                le16(((count + 1) as u16) as int),
                le32(spec_align_up((plan.new_va + plan.virtual_size) as u32, sa) as int),
            )
        }),
{
    reveal(appended_image);
}

/// Four equal bytes read as the same `u32`.
proof fn lemma_same_u32(a: Seq<u8>, b: Seq<u8>, o: int)
    requires
        a[o] == b[o],
        a[o + 1] == b[o + 1],
        a[o + 2] == b[o + 2],
        a[o + 3] == b[o + 3],
    ensures
        spec_u32(a, o) == spec_u32(b, o),
{
}

/// Stripping the certificate keeps the section table, with room for one more
/// header, inside the file.
proof fn lemma_strip_keeps_room(d0: Seq<u8>, opt: int, table: int, count: int)
    requires
        strip_reads_ok(d0, opt),
        0 <= opt,
        room_for_header(d0, opt, table, count),
    ensures
        table + (count + 1) * 40 <= strip_certificate(d0, opt).len() <= d0.len(),
{
    let (off, size) = spec_data_directory(d0, opt, DIR_SECURITY as int);
    let o = opt + OPT_DATA_DIRECTORIES + DIR_SECURITY * 8;
    if off != 0 && size != 0 {
        let t = if off + size == d0.len() { d0.subrange(0, off) } else { d0 };
        lemma_splice(t, o, le32(0));
        lemma_splice(splice(t, o, le32(0)), o + 4, le32(0));
    }
}

/// The sections before the new header read as before the append.
proof fn lemma_old_sections(d: Seq<u8>, d1: Seq<u8>, table: int, count: int)
    requires
        0 <= table,
        0 <= count,
        forall|k: int| table <= k < table + count * 40 ==> #[trigger] d[k] == d1[k],
    ensures
        forall|k: int| 0 <= k < count ==> #[trigger] spec_sections(d, table, count + 1)[k] == spec_sections(d1, table, count)[k],
{
    assert forall|k: int| 0 <= k < count implies #[trigger] spec_sections(d, table, count + 1)[k] == spec_sections(d1, table, count)[k] by {
        let o = table + k * 40;
        assert(o + 24 <= table + count * 40);
        assert(d[o + 8] == d1[o + 8] && d[o + 9] == d1[o + 9] && d[o + 10] == d1[o + 10] && d[o + 11] == d1[o + 11]);
        assert(d[o + 12] == d1[o + 12] && d[o + 13] == d1[o + 13] && d[o + 14] == d1[o + 14] && d[o + 15] == d1[o + 15]);
        assert(d[o + 16] == d1[o + 16] && d[o + 17] == d1[o + 17] && d[o + 18] == d1[o + 18] && d[o + 19] == d1[o + 19]);
        assert(d[o + 20] == d1[o + 20] && d[o + 21] == d1[o + 21] && d[o + 22] == d1[o + 22] && d[o + 23] == d1[o + 23]);
        lemma_same_u32(d, d1, o + 8);
        lemma_same_u32(d, d1, o + 12);
        lemma_same_u32(d, d1, o + 16);
        lemma_same_u32(d, d1, o + 20);
    }
}

/// A section header written at `h` reads back as that section.
proof fn lemma_new_header(d: Seq<u8>, h: int, name8: Seq<u8>, vs: u32, va: u32, rs: u32, rp: u32, ch: u32)
    requires
        0 <= h,
        h + 40 <= d.len(),
        name8.len() == 8,
        d.subrange(h, h + 40) == section_header_bytes(name8, vs as int, va as int, rs as int, rp as int, ch as int),
    ensures
        spec_u32(d, h + 8) == vs,
        spec_u32(d, h + 12) == va,
        spec_u32(d, h + 16) == rs,
        spec_u32(d, h + 20) == rp,
{
    let hb = section_header_bytes(name8, vs as int, va as int, rs as int, rp as int, ch as int);
    assert(d.subrange(h + 8, h + 12) =~= le32(vs as int)) by {
        assert forall|k: int| 0 <= k < 4 implies d.subrange(h + 8, h + 12)[k] == le32(vs as int)[k] by {
            assert(d.subrange(h, h + 40)[8 + k] == d[h + 8 + k]);
        }
    }
    assert(d.subrange(h + 12, h + 16) =~= le32(va as int)) by {
        assert forall|k: int| 0 <= k < 4 implies d.subrange(h + 12, h + 16)[k] == le32(va as int)[k] by {
            assert(d.subrange(h, h + 40)[12 + k] == d[h + 12 + k]);
        }
    }
    assert(d.subrange(h + 16, h + 20) =~= le32(rs as int)) by {
        assert forall|k: int| 0 <= k < 4 implies d.subrange(h + 16, h + 20)[k] == le32(rs as int)[k] by {
            assert(d.subrange(h, h + 40)[16 + k] == d[h + 16 + k]);
        }
    }
    assert(d.subrange(h + 20, h + 24) =~= le32(rp as int)) by {
        assert forall|k: int| 0 <= k < 4 implies d.subrange(h + 20, h + 24)[k] == le32(rp as int)[k] by {
            assert(d.subrange(h, h + 40)[20 + k] == d[h + 20 + k]);
        }
    }
    crate::infra::le::lemma_u32_at(d, h + 8, vs as int);
    crate::infra::le::lemma_u32_at(d, h + 12, va as int);
    crate::infra::le::lemma_u32_at(d, h + 16, rs as int);
    crate::infra::le::lemma_u32_at(d, h + 20, rp as int);
}

/// The plan of an append to a well-formed image: the stripped image keeps
/// the table's room, the raw start is not before its end, the raw size holds
/// the payload, and the new RVA is past every section.
proof fn lemma_plan_facts(
    d0: Seq<u8>,
    coff: int,
    opt: int,
    table: int,
    count: int,
    name: Seq<u8>,
    payload: Seq<u8>,
    characteristics: u32,
)
    requires
        append_checks_pass(d0, opt, table, count),
        append_steps_ok(d0, coff, opt, table, count, name, payload, characteristics),
        d0.len() <= u32::MAX,
        payload.len() <= u32::MAX,
        0 <= opt,
        is_pow2(spec_u32(d0, opt + OPT_FILE_ALIGNMENT) as u32),
        is_pow2(spec_u32(d0, opt + OPT_SECTION_ALIGNMENT) as u32),
        room_for_header(d0, opt, table, count),
    ensures
        ({
            let plan = append_plan(d0, opt, table, count, payload);
            let secs1 = spec_sections(plan.stripped, table, count);
            &&& table + (count + 1) * 40 <= plan.stripped.len()
            &&& plan.stripped.len() <= plan.raw_start
            &&& payload.len() <= plan.raw_size
            &&& plan.virtual_size as int == payload.len()
            &&& forall|k: int| 0 <= k < count ==> section_end(#[trigger] secs1[k]) <= plan.new_va
        }),
{
    reveal(append_steps_ok);
    let fa = spec_u32(d0, opt + OPT_FILE_ALIGNMENT) as u32;
    let sa = spec_u32(d0, opt + OPT_SECTION_ALIGNMENT) as u32;
    let plan = append_plan(d0, opt, table, count, payload);
    let d1 = plan.stripped;
    let secs1 = spec_sections(d1, table, count);
    lemma_strip_keeps_room(d0, opt, table, count);
    lemma_align_up_pow2(d1.len() as u32, fa);
    lemma_align_up_pow2(payload.len() as u32, fa);
    lemma_max_end_bounds(secs1);
    lemma_align_up_pow2(spec_max_end(secs1) as u32, sa);
}

/// The header written at the table's end reads back as the new section.
proof fn lemma_new_section(d: Seq<u8>, table: int, count: int, name8: Seq<u8>, vs: u32, va: u32, rs: u32, r: u32, ch: u32)
    requires
        0 <= table,
        0 <= count,
        name8.len() == 8,
        table + count * 40 + 40 <= d.len(),
        d.subrange(table + count * 40, table + count * 40 + 40) == section_header_bytes(
            name8,
            vs as int,
            va as int,
            rs as int,
            r as int,
            ch as int,
        ),
    ensures
        spec_sections(d, table, count + 1)[count] == (Section { virtual_size: vs, virtual_address: va, raw_size: rs, raw_pointer: r }),
{
    lemma_new_header(d, table + count * 40, name8, vs, va, rs, r, ch);
    assert(spec_sections(d, table, count + 1)[count] == spec_section_at(d, table, count));
}

/// One payload byte is found through its RVA.
proof fn lemma_payload_at(secs: Seq<Section>, secs1: Seq<Section>, count: int, va: u32, vs: u32, rs: u32, r: u32, j: int)
    requires
        0 <= count,
        secs.len() == count + 1,
        secs1.len() == count,
        forall|k: int| 0 <= k < count ==> #[trigger] secs[k] == secs1[k],
        secs[count] == (Section { virtual_size: vs, virtual_address: va, raw_size: rs, raw_pointer: r }),
        forall|k: int| 0 <= k < count ==> section_end(#[trigger] secs1[k]) <= va,
        0 <= j < vs,
    ensures
        spec_rva_lookup(secs, va + j, 0) == Some(r + j),
{
    assert forall|k: int| 0 <= k < count implies section_end(#[trigger] secs[k]) <= va + j by {
        assert(secs[k] == secs1[k]);
    }
    lemma_lookup_past(secs, va + j, 0, count);
}

/// The byte at `rva`, found through the section table `secs`, is `b`.
pub open spec fn byte_found(secs: Seq<Section>, d: Seq<u8>, rva: int, b: u8) -> bool {
    match spec_rva_lookup(secs, rva, 0) {
        Some(o) => 0 <= o < d.len() && d[o] == b,
        None => false,
    }
}

/// Sections that keep the old ones and add one past their ends, with the
/// payload at the new raw start: every payload byte is found through its RVA.
proof fn lemma_payload_reads_back(
    secs: Seq<Section>,
    secs1: Seq<Section>,
    d: Seq<u8>,
    payload: Seq<u8>,
    count: int,
    vs: u32,
    va: u32,
    rs: u32,
    r: u32,
)
    requires
        0 <= count,
        secs.len() == count + 1,
        secs1.len() == count,
        forall|k: int| 0 <= k < count ==> #[trigger] secs[k] == secs1[k],
        secs[count] == (Section { virtual_size: vs, virtual_address: va, raw_size: rs, raw_pointer: r }),
        forall|k: int| 0 <= k < count ==> section_end(#[trigger] secs1[k]) <= va,
        vs as int == payload.len(),
        payload.len() <= rs,
        d.len() == r + rs,
        forall|j: int| 0 <= j < payload.len() ==> #[trigger] d[r + j] == payload[j],
    ensures
        forall|j: int| 0 <= j < payload.len() ==> #[trigger] byte_found(secs, d, va + j, payload[j]),
{
    assert forall|j: int| 0 <= j < payload.len() implies #[trigger] byte_found(secs, d, va + j, payload[j]) by {
        lemma_payload_at(secs, secs1, count, va, vs, rs, r, j);
        assert(d[r + j] == payload[j]);
    }
}

/// The section table of the appended image: the old sections, then the new one.
proof fn lemma_table_after(
    d: Seq<u8>,
    d1: Seq<u8>,
    table: int,
    count: int,
    name8: Seq<u8>,
    vs: u32,
    va: u32,
    rs: u32,
    r: u32,
    ch: u32,
)
    requires
        0 <= table,
        0 <= count,
        name8.len() == 8,
        table + count * 40 + 40 <= d.len(),
        forall|k: int| table <= k < table + count * 40 ==> #[trigger] d[k] == d1[k],
        d.subrange(table + count * 40, table + count * 40 + 40) == section_header_bytes(
            name8,
            vs as int,
            va as int,
            rs as int,
            r as int,
            ch as int,
        ),
    ensures
        spec_sections(d, table, count + 1).len() == count + 1,
        spec_sections(d1, table, count).len() == count,
        forall|k: int| 0 <= k < count ==> #[trigger] spec_sections(d, table, count + 1)[k] == spec_sections(d1, table, count)[k],
        spec_sections(d, table, count + 1)[count] == (Section { virtual_size: vs, virtual_address: va, raw_size: rs, raw_pointer: r }),
{
    lemma_old_sections(d, d1, table, count);
    lemma_new_section(d, table, count, name8, vs, va, rs, r, ch);
}

/// A section appended to a well-formed image reads back: every byte of its
/// payload is found through its RVA, at the file offset the section table
/// maps it to. The image is well-formed here when its alignments are powers
/// of two, the optional header with its data directories precedes the
/// section table, and the table with room for one more header lies in the
/// file, before a certificate that ends it.
#[verifier::spinoff_prover]
pub proof fn lemma_appended_section_reads_back(
    d0: Seq<u8>,
    coff: int,
    opt: int,
    table: int,
    count: int,
    name: Seq<u8>,
    payload: Seq<u8>,
    characteristics: u32,
)
    requires
        append_reads_ok(d0, coff, opt, table, count, name, payload, characteristics),
        d0.len() <= u32::MAX,
        payload.len() <= u32::MAX,
        0 <= coff,
        opt == coff + 20,
        opt + OPT_DATA_DIRECTORIES + 128 <= table,
        0 <= count,
        is_pow2(spec_u32(d0, opt + OPT_FILE_ALIGNMENT) as u32),
        is_pow2(spec_u32(d0, opt + OPT_SECTION_ALIGNMENT) as u32),
        table + (count + 1) * 40 <= spec_u32(d0, opt + OPT_SIZE_OF_HEADERS),
        room_for_header(d0, opt, table, count),
    ensures
        spec_append(d0, coff, opt, table, count, name, payload, characteristics) matches Ok((d, va)) && forall|j: int|
            0 <= j < payload.len() ==> #[trigger] byte_found(spec_sections(d, table, count + 1), d, va + j, payload[j]),
{
    let sa = spec_u32(d0, opt + OPT_SECTION_ALIGNMENT) as u32;
    assert(append_checks_pass(d0, opt, table, count));
    lemma_plan_facts(d0, coff, opt, table, count, name, payload, characteristics);
    let plan = append_plan(d0, opt, table, count, payload);
    let h = table + count * 40;
    let name8 = spec_name8(name);
    let hb = section_header_bytes(
        name8,
        plan.virtual_size as int,
        plan.new_va as int,
        plan.raw_size as int,
        plan.raw_start as int,
        characteristics as int,
    );
    lemma_appended_image_is_result(d0, coff, opt, table, count, name, payload, characteristics);
    let cf = le16(((count + 1) as u16) as int);
    let sf = le32(spec_align_up((plan.new_va + plan.virtual_size) as u32, sa) as int);
    lemma_append_result(plan.stripped, plan.raw_start as int, plan.raw_size as int, payload, h, hb, coff, opt, table, cf, sf);
    let d = appended_image(d0, coff, opt, table, count, name, payload, characteristics);
    let d1 = plan.stripped;
    lemma_table_after(d, d1, table, count, name8, plan.virtual_size, plan.new_va, plan.raw_size, plan.raw_start, characteristics);
    lemma_payload_reads_back(
        spec_sections(d, table, count + 1),
        spec_sections(d1, table, count),
        d,
        payload,
        count,
        plan.virtual_size,
        plan.new_va,
        plan.raw_size,
        plan.raw_start,
    );
}

} // verus!

verus! {

proof fn lemma_mod4_of_multiple(r: int, fa: int)
    requires
        fa > 0,
        fa % 4 == 0,
        r >= 0,
        r % fa == 0,
    ensures
        r % 4 == 0,
{
    let q = r / fa;
    let p = fa / 4;
    vstd::arithmetic::div_mod::lemma_fundamental_div_mod(r, fa);
    vstd::arithmetic::div_mod::lemma_fundamental_div_mod(fa, 4);
    assert(r == fa * q);
    assert(fa == 4 * p);
    assert(r == 4 * (p * q)) by (nonlinear_arith)
        requires
            r == fa * q,
            fa == 4 * p,
    ;
    vstd::arithmetic::div_mod::lemma_mod_multiples_basic(p * q, 4);
}

/// Where an append to a well-formed image puts its payload: at a raw start
/// that is a multiple of 4, past the stripped image, and
/// the new section's RVA maps to that start.
#[verifier::spinoff_prover]
pub proof fn lemma_appended_layout(
    d0: Seq<u8>,
    coff: int,
    opt: int,
    table: int,
    count: int,
    name: Seq<u8>,
    payload: Seq<u8>,
    characteristics: u32,
)
    requires
        append_reads_ok(d0, coff, opt, table, count, name, payload, characteristics),
        d0.len() <= u32::MAX,
        0 < payload.len() <= u32::MAX,
        0 <= coff,
        opt == coff + 20,
        opt + OPT_DATA_DIRECTORIES + 128 <= table,
        0 <= count,
        is_pow2(spec_u32(d0, opt + OPT_FILE_ALIGNMENT) as u32),
        spec_u32(d0, opt + OPT_FILE_ALIGNMENT) % 4 == 0,
        is_pow2(spec_u32(d0, opt + OPT_SECTION_ALIGNMENT) as u32),
        table + (count + 1) * 40 <= spec_u32(d0, opt + OPT_SIZE_OF_HEADERS),
        room_for_header(d0, opt, table, count),
    ensures
        ({
            let plan = append_plan(d0, opt, table, count, payload);
            let r = plan.raw_start as int;
            spec_append(d0, coff, opt, table, count, name, payload, characteristics) matches Ok((d, va)) && {
                &&& va == plan.new_va
                &&& table + (count + 1) * 40 <= strip_certificate(d0, opt).len() <= r
                &&& r % 4 == 0
                &&& r + payload.len() <= d.len()
                &&& forall|j: int| 0 <= j < payload.len() ==> #[trigger] d[r + j] == payload[j]
                &&& spec_rva_lookup(spec_sections(d, table, count + 1), va as int, 0) == Some(r)
            }
        }),
{
    let sa = spec_u32(d0, opt + OPT_SECTION_ALIGNMENT) as u32;
    let fa = spec_u32(d0, opt + OPT_FILE_ALIGNMENT) as u32;
    assert(append_checks_pass(d0, opt, table, count));
    lemma_plan_facts(d0, coff, opt, table, count, name, payload, characteristics);
    let plan = append_plan(d0, opt, table, count, payload);
    let h = table + count * 40;
    let name8 = spec_name8(name);
    let hb = section_header_bytes(
        name8,
        plan.virtual_size as int,
        plan.new_va as int,
        plan.raw_size as int,
        plan.raw_start as int,
        characteristics as int,
    );
    lemma_appended_image_is_result(d0, coff, opt, table, count, name, payload, characteristics);
    let cf = le16(((count + 1) as u16) as int);
    let sf = le32(spec_align_up((plan.new_va + plan.virtual_size) as u32, sa) as int);
    lemma_append_result(plan.stripped, plan.raw_start as int, plan.raw_size as int, payload, h, hb, coff, opt, table, cf, sf);
    let d = appended_image(d0, coff, opt, table, count, name, payload, characteristics);
    lemma_lookup_new(d, plan.stripped, table, count, name8, plan.virtual_size, plan.new_va, plan.raw_size, plan.raw_start, characteristics);
    lemma_raw_start_aligned(d0, coff, opt, table, count, name, payload, characteristics);
}

/// The appended section's RVA maps to its raw start.
proof fn lemma_lookup_new(d: Seq<u8>, d1: Seq<u8>, table: int, count: int, name8: Seq<u8>, vs: u32, va: u32, rs: u32, r: u32, ch: u32)
    requires
        0 <= table,
        0 <= count,
        name8.len() == 8,
        0 < vs,
        table + count * 40 + 40 <= d.len(),
        forall|k: int| table <= k < table + count * 40 ==> #[trigger] d[k] == d1[k],
        d.subrange(table + count * 40, table + count * 40 + 40) == section_header_bytes(
            name8,
            vs as int,
            va as int,
            rs as int,
            r as int,
            ch as int,
        ),
        forall|k: int| 0 <= k < count ==> section_end(#[trigger] spec_sections(d1, table, count)[k]) <= va,
    ensures
        spec_rva_lookup(spec_sections(d, table, count + 1), va as int, 0) == Some(r as int),
{
    lemma_table_after(d, d1, table, count, name8, vs, va, rs, r, ch);
    lemma_payload_at(spec_sections(d, table, count + 1), spec_sections(d1, table, count), count, va, vs, rs, r, 0);
}

/// The raw start of an append is a multiple of 4 when the file alignment is.
proof fn lemma_raw_start_aligned(
    d0: Seq<u8>,
    coff: int,
    opt: int,
    table: int,
    count: int,
    name: Seq<u8>,
    payload: Seq<u8>,
    characteristics: u32,
)
    requires
        append_checks_pass(d0, opt, table, count),
        append_steps_ok(d0, coff, opt, table, count, name, payload, characteristics),
        is_pow2(spec_u32(d0, opt + OPT_FILE_ALIGNMENT) as u32),
        spec_u32(d0, opt + OPT_FILE_ALIGNMENT) % 4 == 0,
    ensures
        append_plan(d0, opt, table, count, payload).raw_start % 4 == 0,
{
    reveal(append_steps_ok);
    let fa = spec_u32(d0, opt + OPT_FILE_ALIGNMENT) as u32;
    let plan = append_plan(d0, opt, table, count, payload);
    lemma_align_up_pow2(plan.stripped.len() as u32, fa);
    lemma_mod4_of_multiple(plan.raw_start as int, fa as int);
}

} // verus!

verus! {

/// Section tables read from equal bytes are equal.
pub proof fn lemma_sections_frame(a: Seq<u8>, b: Seq<u8>, table: int, n: int)
    requires
        0 <= table,
        0 <= n,
        forall|k: int| table <= k < table + n * 40 ==> #[trigger] a[k] == b[k],
    ensures
        spec_sections(a, table, n) == spec_sections(b, table, n),
{
    assert forall|i: int| 0 <= i < n implies #[trigger] spec_sections(a, table, n)[i] == spec_sections(b, table, n)[i] by {
        let o = table + i * 40;
        assert(o + 24 <= table + n * 40) by (nonlinear_arith)
            requires
                0 <= i < n,
                o == table + i * 40,
        ;
        assert(a[o + 8] == b[o + 8] && a[o + 9] == b[o + 9] && a[o + 10] == b[o + 10] && a[o + 11] == b[o + 11]);
        assert(a[o + 12] == b[o + 12] && a[o + 13] == b[o + 13] && a[o + 14] == b[o + 14] && a[o + 15] == b[o + 15]);
        assert(a[o + 16] == b[o + 16] && a[o + 17] == b[o + 17] && a[o + 18] == b[o + 18] && a[o + 19] == b[o + 19]);
        assert(a[o + 20] == b[o + 20] && a[o + 21] == b[o + 21] && a[o + 22] == b[o + 22] && a[o + 23] == b[o + 23]);
        lemma_same_u32(a, b, o + 8);
        lemma_same_u32(a, b, o + 12);
        lemma_same_u32(a, b, o + 16);
        lemma_same_u32(a, b, o + 20);
    }
    assert(spec_sections(a, table, n) =~= spec_sections(b, table, n));
}

/// Three writes: `p` at `fo`, then `z` and `w` at `chk` (the fields apart):
/// the length stays, `fo` holds `p`, and every other byte stays.
proof fn lemma_three_writes(x: Seq<u8>, fo: int, p: Seq<u8>, chk: int, z: Seq<u8>, w: Seq<u8>)
    requires
        p.len() == 4,
        z.len() == 4,
        w.len() == 4,
        0 <= fo,
        fo + 4 <= x.len(),
        0 <= chk,
        chk + 4 <= x.len(),
        fo + 4 <= chk || chk + 4 <= fo,
    ensures
        ({
            let d = splice(splice(splice(x, fo, p), chk, z), chk, w);
            &&& d.len() == x.len()
            &&& d.subrange(fo, fo + 4) == p
            &&& forall|k: int| 0 <= k < x.len() && !(fo <= k < fo + 4) && !(chk <= k < chk + 4) ==> #[trigger] d[k] == x[k]
        }),
{
    let y = splice(x, fo, p);
    lemma_splice(x, fo, p);
    let zz = splice(y, chk, z);
    lemma_splice(y, chk, z);
    let d = splice(zz, chk, w);
    lemma_splice(zz, chk, w);
    assert(d.subrange(fo, fo + 4) =~= p) by {
        assert forall|k: int| 0 <= k < 4 implies #[trigger] d.subrange(fo, fo + 4)[k] == p[k] by {
            assert(d[fo + k] == zz[fo + k]);
            assert(zz[fo + k] == y[fo + k]);
            assert(y.subrange(fo, fo + 4)[k] == y[fo + k]);
        }
    }
    assert forall|k: int| 0 <= k < x.len() && !(fo <= k < fo + 4) && !(chk <= k < chk + 4) implies #[trigger] d[k] == x[k] by {
        assert(d[k] == zz[k]);
        assert(zz[k] == y[k]);
    }
}

/// Writing `v` at `fo` and then the checksum at `chk` (the two fields apart):
/// the length stays, `fo` reads `v`, and every other byte stays.
pub proof fn lemma_write_then_checksum(x: Seq<u8>, fo: int, v: int, chk: int)
    requires
        0 <= v <= u32::MAX,
        0 <= fo,
        fo + 4 <= x.len(),
        0 <= chk,
        chk + 4 <= x.len(),
        fo + 4 <= chk || chk + 4 <= fo,
    ensures
        ({
            let d = with_checksum(splice(x, fo, le32(v)), chk);
            &&& d.len() == x.len()
            &&& spec_u32(d, fo) == v
            &&& forall|k: int| 0 <= k < x.len() && !(fo <= k < fo + 4) && !(chk <= k < chk + 4) ==> #[trigger] d[k] == x[k]
        }),
{
    let y = splice(x, fo, le32(v));
    let zs = seq![0u8, 0u8, 0u8, 0u8];
    let w = le32(spec_checksum(splice(y, chk, zs)));
    crate::infra::le::lemma_le32_roundtrip(v);
    lemma_three_writes(x, fo, le32(v), chk, zs, w);
    let d = with_checksum(y, chk);
    assert(d == splice(splice(y, chk, zs), chk, w));
    crate::infra::le::lemma_u32_at(d, fo, v);
}

} // verus!
