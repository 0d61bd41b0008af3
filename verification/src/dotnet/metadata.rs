//! A minimal ECMA-335 metadata reader.
//!
//! One purpose: without any .NET runtime, find a method by the simple name of
//! its type and a suffix of its own name, and report the RVA of its body and
//! the file offset of the RVA field of its `MethodDef` row (so that a relocated
//! body can be pointed to). Only the tables up to `MethodDef` are laid out.
//!
//! Offsets are computed as `u64`: a file here is at most 4 GiB long, so no sum
//! below can overflow, and every read checks its range first. A read that
//! falls outside the file is where the format is broken beyond what the
//! lookup can report; the specification marks it with `None`.

use vstd::prelude::*;
use vstd::string::StringExecFns;
use vstd::string::StringSliceAdditionalSpecFns;
use crate::dotnet::pe::{metadata_root_reads_ok, spec_metadata_root, PeError, PeImage};
use crate::infra::bytes::copy_range;
use crate::infra::le::{spec_u16, spec_u32};
use crate::infra::text::{is_utf8, utf8_valid};

verus! {

/// Why a method could not be located.
#[derive(Debug, Clone, Copy, PartialEq, Eq)]
pub enum MetadataError {
    /// The image has no readable metadata root.
    Image(PeError),
    /// No `#~` or `#-` table stream.
    MissingTableStream,
    /// No `#Strings` heap.
    MissingStringsHeap,
    /// The `TypeDef` table is absent.
    NoTypeDefTable,
    /// The `MethodDef` table is absent.
    NoMethodDefTable,
    /// No type has the requested simple name.
    TypeNotFound,
    /// The type has no method whose name ends with the requested suffix.
    MethodNotFound,
    /// The method has no body (abstract or extern).
    NoMethodBody,
}

impl MetadataError {
    /// The text shown for the error, for the lookup of `wanted_type` / `suffix`.
    pub open spec fn spec_message(self, wanted_type: Seq<char>, suffix: Seq<char>) -> Seq<char> {
        match self {
            MetadataError::Image(e) => e.spec_message(),
            MetadataError::MissingTableStream => "缺少 #~/#- 表流"@,
            MetadataError::MissingStringsHeap => "缺少 #Strings 堆"@,
            MetadataError::NoTypeDefTable => "无 TypeDef 表"@,
            MetadataError::NoMethodDefTable => "无 MethodDef 表"@,
            MetadataError::TypeNotFound => "未找到类型 "@ + wanted_type,
            MetadataError::MethodNotFound => "类型 "@ + wanted_type + " 中未找到方法 *"@ + suffix,
            MetadataError::NoMethodBody => "方法无方法体（abstract/extern）"@,
        }
    }

    /// The text shown for the error, for the lookup of `wanted_type` / `suffix`.
    pub fn message(self, wanted_type: &str, suffix: &str) -> (r: String)
        ensures
            r@ == self.spec_message(wanted_type@, suffix@),
    {
        match self {
            MetadataError::Image(e) => e.message(),
            MetadataError::MissingTableStream => String::from_str("缺少 #~/#- 表流"),
            MetadataError::MissingStringsHeap => String::from_str("缺少 #Strings 堆"),
            MetadataError::NoTypeDefTable => String::from_str("无 TypeDef 表"),
            MetadataError::NoMethodDefTable => String::from_str("无 MethodDef 表"),
            MetadataError::TypeNotFound => {
                let mut s = String::from_str("未找到类型 ");
                s.append(wanted_type);
                s
            },
            MetadataError::MethodNotFound => {
                let mut s = String::from_str("类型 ");
                s.append(wanted_type);
                s.append(" 中未找到方法 *");
                s.append(suffix);
                s
            },
            MetadataError::NoMethodBody => String::from_str("方法无方法体（abstract/extern）"),
        }
    }
}

/// Where a method lives.
#[derive(Debug, Clone, Copy, PartialEq, Eq)]
pub struct MethodLocation {
    /// RVA of the method body (its header).
    pub body_rva: u32,
    /// File offset of the RVA field (the first 4 bytes) of the `MethodDef` row.
    pub rva_field_offset: usize,
}

// ---------------------------------------------------------------- reading

/// The byte at `o`, if inside `d`.
pub open spec fn rd8(d: Seq<u8>, o: int) -> Option<u8> {
    if 0 <= o < d.len() { Some(d[o]) } else { None }
}

/// The little-endian `u16` at `o`, if inside `d`.
pub open spec fn rd16(d: Seq<u8>, o: int) -> Option<int> {
    if 0 <= o && o + 2 <= d.len() { Some(spec_u16(d, o)) } else { None }
}

/// The little-endian `u32` at `o`, if inside `d`.
pub open spec fn rd32(d: Seq<u8>, o: int) -> Option<int> {
    if 0 <= o && o + 4 <= d.len() { Some(spec_u32(d, o)) } else { None }
}

/// An index of width `w` (2 or 4 bytes) at `o`.
pub open spec fn read_index(d: Seq<u8>, o: int, w: int) -> Option<int> {
    if w == 2 { rd16(d, o) } else { rd32(d, o) }
}

/// The first NUL at or after `q`; `None` when the file ends first.
pub open spec fn nul_end(d: Seq<u8>, q: int) -> Option<int>
    decreases d.len() - q,
{
    if q < 0 || q >= d.len() {
        None
    } else if d[q] == 0 {
        Some(q)
    } else {
        nul_end(d, q + 1)
    }
}

/// The NUL-terminated byte string at `s`.
pub open spec fn cstr(d: Seq<u8>, s: int) -> Option<Seq<u8>> {
    match nul_end(d, s) {
        Some(e) => Some(d.subrange(s, e)),
        None => None,
    }
}

/// A heap string as the lookup compares it: its bytes when they are UTF-8,
/// else the empty string.
pub open spec fn shown(b: Seq<u8>) -> Seq<u8> {
    if is_utf8(b) { b } else { Seq::empty() }
}

/// `x` rounded up to a multiple of 4.
pub open spec fn align4(x: int) -> int {
    ((x + 3) / 4) * 4
}

// ---------------------------------------------------------------- streams

/// `#~` or `#-`.
pub open spec fn is_table_stream_name(n: Seq<u8>) -> bool {
    n == seq![0x23u8, 0x7E] || n == seq![0x23u8, 0x2D]
}

/// `#Strings`.
pub open spec fn is_strings_name(n: Seq<u8>) -> bool {
    n == seq![0x23u8, 0x53, 0x74, 0x72, 0x69, 0x6E, 0x67, 0x73]
}

/// Walks `left` stream headers from `p` and keeps the last table stream and
/// `#Strings` heap offsets seen.
pub open spec fn scan_streams(d: Seq<u8>, moff: int, p: int, left: int, tilde: Option<int>, strings: Option<int>) -> Option<(Option<int>, Option<int>)>
    decreases left,
{
    if left <= 0 {
        Some((tilde, strings))
    } else {
        match rd32(d, p) {
            None => None,
            Some(off) => match nul_end(d, p + 8) {
                None => None,
                Some(e) => {
                    let name = d.subrange(p + 8, e);
                    let t2 = if is_table_stream_name(name) { Some(moff + off) } else { tilde };
                    let s2 = if is_strings_name(name) { Some(moff + off) } else { strings };
                    scan_streams(d, moff, align4(e + 1), left - 1, t2, s2)
                },
            },
        }
    }
}

// ---------------------------------------------------------------- tables

/// The parts of the `#~` stream the lookup uses.
pub struct TablesView {
    pub strings_off: int,
    /// File offsets of tables 0..=6, when present.
    pub offsets: Seq<Option<int>>,
    /// Row counts of all 64 tables (0 when absent).
    pub rows: Seq<int>,
    pub str_w: int,
    pub guid_w: int,
    pub blob_w: int,
}

/// Table `i` is present in the `Valid` mask, held as its low and high words.
pub open spec fn present(lo: u32, hi: u32, i: u32) -> bool {
    if i < 32 { (lo >> i) & 1u32 == 1u32 } else { (hi >> ((i - 32) as u32)) & 1u32 == 1u32 }
}

/// Reads the row counts of tables `i..64` from `rowp` on.
pub open spec fn read_rows(d: Seq<u8>, lo: u32, hi: u32, i: int, rowp: int, acc: Seq<int>) -> Option<(Seq<int>, int)>
    decreases 64 - i,
{
    if i < 0 || i >= 64 {
        Some((acc, rowp))
    } else if present(lo, hi, i as u32) {
        match rd32(d, rowp) {
            None => None,
            Some(v) => read_rows(d, lo, hi, i + 1, rowp + 4, acc.push(v)),
        }
    } else {
        read_rows(d, lo, hi, i + 1, rowp, acc.push(0))
    }
}

/// Width of a simple index into table `t`.
pub open spec fn simple_w(rows: Seq<int>, t: int) -> int {
    if rows[t] > 0xFFFF { 4 } else { 2 }
}

/// Width of a coded index with two tag bits over tables whose largest row
/// count is `max`: two bytes while every table has fewer than 2^14 rows.
pub open spec fn coded2_w(max: int) -> int {
    if max >= 0x4000 { 4 } else { 2 }
}

pub open spec fn max_of(a: int, b: int) -> int {
    if a >= b { a } else { b }
}

/// Width of a `TypeDefOrRef` coded index (TypeDef, TypeRef, TypeSpec).
pub open spec fn type_def_or_ref_w(rows: Seq<int>) -> int {
    coded2_w(max_of(max_of(rows[2], rows[1]), rows[27]))
}

/// Width of a `ResolutionScope` coded index (Module, ModuleRef, AssemblyRef, TypeRef).
pub open spec fn resolution_scope_w(rows: Seq<int>) -> int {
    coded2_w(max_of(max_of(max_of(rows[0], rows[26]), rows[35]), rows[1]))
}

/// Row size of table `t` (0..=6).
pub open spec fn row_size(rows: Seq<int>, s: int, g: int, b: int, t: int) -> int {
    if t == 0 {
        2 + s + 3 * g
    } else if t == 1 {
        resolution_scope_w(rows) + 2 * s
    } else if t == 2 {
        4 + 2 * s + type_def_or_ref_w(rows) + simple_w(rows, 4) + simple_w(rows, 6)
    } else if t == 3 {
        simple_w(rows, 4)
    } else if t == 4 {
        2 + s + b
    } else if t == 5 {
        simple_w(rows, 6)
    } else {
        4 + 2 + 2 + s + b + simple_w(rows, 8)
    }
}

/// Lays out tables `i..=6` from `cur`, in ascending id order.
pub open spec fn table_offsets(lo: u32, hi: u32, rows: Seq<int>, s: int, g: int, b: int, i: int, cur: int, acc: Seq<Option<int>>) -> Seq<Option<int>>
    decreases 7 - i,
{
    if i < 0 || i > 6 {
        acc
    } else if present(lo, hi, i as u32) {
        let acc2 = acc.update(i, Some(cur));
        if i < 6 {
            table_offsets(lo, hi, rows, s, g, b, i + 1, cur + rows[i] * row_size(rows, s, g, b, i), acc2)
        } else {
            acc2
        }
    } else {
        table_offsets(lo, hi, rows, s, g, b, i + 1, cur, acc)
    }
}

/// Heap index width for a `HeapSizes` flag bit.
pub open spec fn heap_w(heap_sizes: u8, bit: u8) -> int {
    if heap_sizes & bit != 0 { 4 } else { 2 }
}

/// The table-stream view once the row counts are read.
pub open spec fn tables_from_rows(so: int, lo: u32, hi: u32, hs: u8, rr: Option<(Seq<int>, int)>) -> Option<Result<TablesView, MetadataError>> {
    match rr {
        None => None,
        Some((rows, data_start)) => {
            let s = heap_w(hs, 1);
            let g = heap_w(hs, 2);
            let b = heap_w(hs, 4);
            Some(Ok(TablesView {
                strings_off: so,
                offsets: table_offsets(lo, hi, rows, s, g, b, 0, data_start, seq![None, None, None, None, None, None, None]),
                rows,
                str_w: s,
                guid_w: g,
                blob_w: b,
            }))
        },
    }
}

/// The table-stream view from the `#~` header at `t`, with the `#Strings` heap at `so`.
pub open spec fn tables_from_header(d: Seq<u8>, t: int, so: int) -> Option<Result<TablesView, MetadataError>> {
    match (rd8(d, t + 6), rd32(d, t + 8), rd32(d, t + 12)) {
        (Some(hs), Some(lo), Some(hi)) => tables_from_rows(so, lo as u32, hi as u32, hs, read_rows(d, lo as u32, hi as u32, 0, t + 24, Seq::empty())),
        _ => None,
    }
}

/// The table-stream view once the stream headers are scanned.
pub open spec fn tables_after_streams(d: Seq<u8>, sc: Option<(Option<int>, Option<int>)>) -> Option<Result<TablesView, MetadataError>> {
    match sc {
        None => None,
        Some((tilde, strings)) => match tilde {
            None => Some(Err(MetadataError::MissingTableStream)),
            Some(t) => match strings {
                None => Some(Err(MetadataError::MissingStringsHeap)),
                Some(so) => tables_from_header(d, t, so),
            },
        },
    }
}

/// Reads the metadata root at `moff` and the header of its table stream.
pub open spec fn spec_tables(d: Seq<u8>, moff: int) -> Option<Result<TablesView, MetadataError>> {
    match rd32(d, moff + 12) {
        None => None,
        Some(ver_len) => {
            let p = moff + 16 + ver_len;
            match rd16(d, p + 2) {
                None => None,
                Some(n) => tables_after_streams(d, scan_streams(d, moff, p + 4, n, None, None)),
            }
        },
    }
}

// ---------------------------------------------------------------- lookups

/// The name heap string at index `idx`, as compared.
pub open spec fn heap_string(d: Seq<u8>, tv: TablesView, idx: int) -> Option<Seq<u8>> {
    match cstr(d, tv.strings_off + idx) {
        Some(b) => Some(shown(b)),
        None => None,
    }
}

/// Size of a `TypeDef` row.
pub open spec fn typedef_row_size(tv: TablesView) -> int {
    row_size(tv.rows, tv.str_w, tv.guid_w, tv.blob_w, 2)
}

/// Size of a `MethodDef` row.
pub open spec fn methoddef_row_size(tv: TablesView) -> int {
    row_size(tv.rows, tv.str_w, tv.guid_w, tv.blob_w, 6)
}

/// The simple name of `TypeDef` row `r` (0-based).
pub open spec fn type_name_at(d: Seq<u8>, tv: TablesView, r: int) -> Option<Seq<u8>> {
    match read_index(d, tv.offsets[2]->0 + r * typedef_row_size(tv) + 4, tv.str_w) {
        None => None,
        Some(idx) => heap_string(d, tv, idx),
    }
}

/// The first `TypeDef` row in `r..n` named `name`.
pub open spec fn find_type_from(d: Seq<u8>, tv: TablesView, name: Seq<u8>, r: int, n: int) -> Option<Option<int>>
    decreases n - r,
{
    if r >= n {
        Some(None)
    } else {
        match type_name_at(d, tv, r) {
            None => None,
            Some(s) => if s == name { Some(Some(r)) } else { find_type_from(d, tv, name, r + 1, n) },
        }
    }
}

/// The `MethodList` (1-based) of `TypeDef` row `row`.
pub open spec fn type_method_list(d: Seq<u8>, tv: TablesView, row: int) -> Option<int> {
    let o = tv.offsets[2]->0 + row * typedef_row_size(tv) + 4 + 2 * tv.str_w + type_def_or_ref_w(tv.rows) + simple_w(tv.rows, 4);
    read_index(d, o, simple_w(tv.rows, 6))
}

/// File offset of `MethodDef` row `row0` (0-based), which is its RVA field.
pub open spec fn method_row_offset(tv: TablesView, row0: int) -> int {
    tv.offsets[6]->0 + row0 * methoddef_row_size(tv)
}

/// The name of `MethodDef` row `row0`.
pub open spec fn method_name_at(d: Seq<u8>, tv: TablesView, row0: int) -> Option<Seq<u8>> {
    match read_index(d, method_row_offset(tv, row0) + 8, tv.str_w) {
        None => None,
        Some(idx) => heap_string(d, tv, idx),
    }
}

/// `s` ends with `suffix`.
pub open spec fn ends_with(s: Seq<u8>, suffix: Seq<u8>) -> bool {
    s.len() >= suffix.len() && s.subrange(s.len() - suffix.len(), s.len() as int) == suffix
}

/// The first method in the 1-based range `ridx..end` whose name ends with `suffix`.
pub open spec fn find_method_from(d: Seq<u8>, tv: TablesView, suffix: Seq<u8>, ridx: int, end: int) -> Option<Option<int>>
    decreases end - ridx,
{
    if ridx >= end {
        Some(None)
    } else if ridx <= 0 {
        None
    } else {
        match method_name_at(d, tv, ridx - 1) {
            None => None,
            Some(n) => if ends_with(n, suffix) { Some(Some(ridx - 1)) } else { find_method_from(d, tv, suffix, ridx + 1, end) },
        }
    }
}

/// Where the lookup of `wanted_type` / `suffix` ends, for the metadata root at
/// `moff`: `None` where a read falls outside the file, else the error or the
/// body RVA and the RVA field's offset.
pub open spec fn spec_locate(d: Seq<u8>, moff: int, wanted_type: Seq<u8>, suffix: Seq<u8>) -> Option<Result<(int, int), MetadataError>> {
    match spec_tables(d, moff) {
        None => None,
        Some(Err(e)) => Some(Err(e)),
        Some(Ok(tv)) => if tv.offsets[2] is None {
            Some(Err(MetadataError::NoTypeDefTable))
        } else if tv.offsets[6] is None {
            Some(Err(MetadataError::NoMethodDefTable))
        } else {
            match find_type_from(d, tv, wanted_type, 0, tv.rows[2]) {
                None => None,
                Some(None) => Some(Err(MetadataError::TypeNotFound)),
                Some(Some(row)) => {
                    let end = if row + 1 < tv.rows[2] {
                        type_method_list(d, tv, row + 1)
                    } else if tv.rows[6] < u32::MAX {
                        Some(tv.rows[6] + 1)
                    } else {
                        None
                    };
                    match (type_method_list(d, tv, row), end) {
                        (Some(start), Some(end)) => match find_method_from(d, tv, suffix, start, end) {
                            None => None,
                            Some(None) => Some(Err(MetadataError::MethodNotFound)),
                            Some(Some(row0)) => {
                                let fo = method_row_offset(tv, row0);
                                match rd32(d, fo) {
                                    None => None,
                                    Some(rva) => if rva == 0 {
                                        Some(Err(MetadataError::NoMethodBody))
                                    } else {
                                        Some(Ok((rva, fo)))
                                    },
                                }
                            },
                        },
                        _ => None,
                    }
                },
            }
        }
    }
}

/// What `find_method` gives for an image: the metadata root's error, or the lookup from it.
pub open spec fn spec_find_method(pe: PeImage, wanted_type: Seq<u8>, suffix: Seq<u8>) -> Option<Result<(int, int), MetadataError>> {
    match spec_metadata_root(pe.data@, pe.opt(), pe.table(), pe.count()) {
        Err(e) => Some(Err(MetadataError::Image(e))),
        Ok(moff) => spec_locate(pe.data@, moff, wanted_type, suffix),
    }
}

/// Every read of the lookup stays inside the file.
pub open spec fn find_method_reads_ok(pe: PeImage, wanted_type: Seq<u8>, suffix: Seq<u8>) -> bool {
    &&& pe.data@.len() <= u32::MAX
    &&& metadata_root_reads_ok(pe.data@, pe.opt(), pe.table(), pe.count())
    &&& spec_find_method(pe, wanted_type, suffix) is Some
}

/// A located method as the specification gives it.
pub open spec fn location_view(r: Result<MethodLocation, MetadataError>) -> Result<(int, int), MetadataError> {
    match r {
        Ok(l) => Ok((l.body_rva as int, l.rva_field_offset as int)),
        Err(e) => Err(e),
    }
}

// ---------------------------------------------------------------- exec reading

fn rd_u8_at(d: &[u8], o: u64) -> (r: Option<u8>)
    ensures
        r == rd8(d@, o as int),
{
    if o < d.len() as u64 { Some(d[o as usize]) } else { None }
}

fn rd_u16_at(d: &[u8], o: u64) -> (r: Option<u16>)
    ensures
        match r {
            Some(v) => rd16(d@, o as int) == Some(v as int),
            None => rd16(d@, o as int) is None,
        },
{
    if o <= d.len() as u64 && 2 <= d.len() as u64 - o {
        let i = o as usize;
        Some(d[i] as u16 + d[i + 1] as u16 * 256)
    } else {
        None
    }
}

fn rd_u32_at(d: &[u8], o: u64) -> (r: Option<u32>)
    ensures
        match r {
            Some(v) => rd32(d@, o as int) == Some(v as int),
            None => rd32(d@, o as int) is None,
        },
{
    if o <= d.len() as u64 && 4 <= d.len() as u64 - o {
        let i = o as usize;
        Some(d[i] as u32 + d[i + 1] as u32 * 256 + d[i + 2] as u32 * 65536 + d[i + 3] as u32 * 16777216)
    } else {
        None
    }
}

fn rd_index_at(d: &[u8], o: u64, w: u64) -> (r: Option<u32>)
    ensures
        match r {
            Some(v) => read_index(d@, o as int, w as int) == Some(v as int),
            None => read_index(d@, o as int, w as int) is None,
        },
{
    if w == 2 {
        match rd_u16_at(d, o) {
            Some(v) => Some(v as u32),
            None => None,
        }
    } else {
        rd_u32_at(d, o)
    }
}

fn nul_end_at(d: &[u8], q: u64) -> (r: Option<u64>)
    ensures
        match r {
            Some(e) => nul_end(d@, q as int) == Some(e as int),
            None => nul_end(d@, q as int) is None,
        },
{
    let mut k = q;
    while k < d.len() as u64
        invariant
            q <= k,
            nul_end(d@, q as int) == nul_end(d@, k as int),
        decreases d@.len() - k,
    {
        if d[k as usize] == 0 {
            return Some(k);
        }
        k = k + 1;
    }
    None
}

proof fn lemma_nul_end(d: Seq<u8>, q: int)
    ensures
        nul_end(d, q) matches Some(e) ==> 0 <= q <= e < d.len() && d[e] == 0,
    decreases d.len() - q,
{
    if 0 <= q < d.len() && d[q] != 0 {
        lemma_nul_end(d, q + 1);
    }
}

/// The heap string at `s`, as the lookup compares it.
fn heap_string_at(d: &[u8], s: u64) -> (r: Option<Vec<u8>>)
    ensures
        match r {
            Some(v) => cstr(d@, s as int) matches Some(b) && v@ == shown(b),
            None => cstr(d@, s as int) is None,
        },
{
    match nul_end_at(d, s) {
        None => None,
        Some(e) => {
            proof {
                lemma_nul_end(d@, s as int);
            }
            assert(d@.len() == d.len());
            assert(s <= e < d@.len());
            let b = copy_range(d, s as usize, e as usize);
            if utf8_valid(b.as_slice()) {
                Some(b)
            } else {
                Some(Vec::new())
            }
        },
    }
}

/// `a == b` on bytes.
fn bytes_eq(a: &[u8], b: &[u8]) -> (r: bool)
    ensures
        r == (a@ == b@),
{
    if a.len() != b.len() {
        return false;
    }
    let mut i: usize = 0;
    while i < a.len()
        invariant
            a@.len() == b@.len(),
            i <= a@.len(),
            forall|j: int| 0 <= j < i ==> a@[j] == b@[j],
        decreases a@.len() - i,
    {
        if a[i] != b[i] {
            return false;
        }
        i = i + 1;
    }
    assert(a@ =~= b@);
    true
}

/// `s` ends with `suffix`.
fn bytes_end_with(s: &[u8], suffix: &[u8]) -> (r: bool)
    ensures
        r == ends_with(s@, suffix@),
{
    if s.len() < suffix.len() {
        return false;
    }
    let base = s.len() - suffix.len();
    let mut i: usize = 0;
    while i < suffix.len()
        invariant
            base + suffix@.len() == s@.len(),
            s@.len() == s.len(),
            suffix@.len() == suffix.len(),
            i <= suffix@.len(),
            forall|j: int| 0 <= j < i ==> s@[base + j] == suffix@[j],
        decreases suffix@.len() - i,
    {
        if s[base + i] != suffix[i] {
            assert(s@.subrange(base as int, s@.len() as int)[i as int] != suffix@[i as int]);
            return false;
        }
        i = i + 1;
    }
    assert(s@.subrange(base as int, s@.len() as int) =~= suffix@);
    true
}

// ---------------------------------------------------------------- exec tables

/// An optional `u64` offset as an integer.
pub open spec fn opt_int(o: Option<u64>) -> Option<int> {
    match o {
        Some(x) => Some(x as int),
        None => None,
    }
}

/// Largest table offset the layout can produce in a file of at most 4 GiB.
pub open spec fn offset_bound() -> int {
    0x100_0000_0000
}

/// The parsed table-stream header.
struct Tables {
    strings_off: u64,
    offsets: Vec<Option<u64>>,
    rows: Vec<u32>,
    str_w: u64,
    guid_w: u64,
    blob_w: u64,
}

impl Tables {
    spec fn view(&self) -> TablesView {
        TablesView {
            strings_off: self.strings_off as int,
            offsets: self.offsets@.map_values(|o: Option<u64>| opt_int(o)),
            rows: self.rows@.map_values(|r: u32| r as int),
            str_w: self.str_w as int,
            guid_w: self.guid_w as int,
            blob_w: self.blob_w as int,
        }
    }

    spec fn inv(&self) -> bool {
        &&& self.offsets@.len() == 7
        &&& self.rows@.len() == 64
        &&& (self.str_w == 2 || self.str_w == 4)
        &&& (self.guid_w == 2 || self.guid_w == 4)
        &&& (self.blob_w == 2 || self.blob_w == 4)
        &&& self.strings_off <= 0x2_0000_0000
        &&& forall|i: int| 0 <= i < 7 ==> (#[trigger] self.offsets@[i] matches Some(x) ==> x <= offset_bound())
    }
}

/// The row counts read so far, as integers.
spec fn rows_view(rows: Seq<u32>) -> Seq<int> {
    rows.map_values(|r: u32| r as int)
}

/// `name` is `#~` or `#-`.
fn is_table_stream(name: &[u8]) -> (r: bool)
    ensures
        r == is_table_stream_name(name@),
{
    let a = bytes_eq(name, &[0x23, 0x7E]);
    let b = bytes_eq(name, &[0x23, 0x2D]);
    proof {
        assert([0x23u8, 0x7E]@ =~= seq![0x23u8, 0x7E]);
        assert([0x23u8, 0x2D]@ =~= seq![0x23u8, 0x2D]);
    }
    a || b
}

/// `name` is `#Strings`.
fn is_strings(name: &[u8]) -> (r: bool)
    ensures
        r == is_strings_name(name@),
{
    let a = bytes_eq(name, &[0x23, 0x53, 0x74, 0x72, 0x69, 0x6E, 0x67, 0x73]);
    proof {
        assert([0x23u8, 0x53, 0x74, 0x72, 0x69, 0x6E, 0x67, 0x73]@ =~= seq![0x23u8, 0x53, 0x74, 0x72, 0x69, 0x6E, 0x67, 0x73]);
    }
    a
}

/// Whether table `i` is marked present.
fn table_present(lo: u32, hi: u32, i: u32) -> (r: bool)
    requires
        i < 64,
    ensures
        r == present(lo, hi, i),
{
    if i < 32 { (lo >> i) & 1 == 1 } else { (hi >> (i - 32)) & 1 == 1 }
}

/// Width of a coded index with two tag bits.
fn coded2_width(max: u32) -> (r: u64)
    ensures
        r == coded2_w(max as int),
{
    if max >= 0x4000 { 4 } else { 2 }
}

fn max_u32(a: u32, b: u32) -> (r: u32)
    ensures
        r == max_of(a as int, b as int),
{
    if a >= b { a } else { b }
}

/// Width of a simple index into table `t`.
fn simple_width(rows: &Vec<u32>, t: usize) -> (r: u64)
    requires
        t < rows@.len(),
    ensures
        r == simple_w(rows_view(rows@), t as int),
        r == 2 || r == 4,
{
    if rows[t] > 0xFFFF { 4 } else { 2 }
}

/// Row size of table `t` (0..=6).
fn row_size_of(rows: &Vec<u32>, s: u64, g: u64, b: u64, t: usize) -> (r: u64)
    requires
        rows@.len() == 64,
        t <= 6,
        s == 2 || s == 4,
        g == 2 || g == 4,
        b == 2 || b == 4,
    ensures
        r == row_size(rows_view(rows@), s as int, g as int, b as int, t as int),
        r <= 24,
{
    let ghost rv = rows_view(rows@);
    if t == 0 {
        2 + s + 3 * g
    } else if t == 1 {
        let m = max_u32(max_u32(max_u32(rows[0], rows[26]), rows[35]), rows[1]);
        coded2_width(m) + 2 * s
    } else if t == 2 {
        let m = max_u32(max_u32(rows[2], rows[1]), rows[27]);
        4 + 2 * s + coded2_width(m) + simple_width(rows, 4) + simple_width(rows, 6)
    } else if t == 3 {
        simple_width(rows, 4)
    } else if t == 4 {
        2 + s + b
    } else if t == 5 {
        simple_width(rows, 6)
    } else {
        4 + 2 + 2 + s + b + simple_width(rows, 8)
    }
}

/// The heap index width for flag `bit`.
fn heap_width(hs: u8, bit: u8) -> (r: u64)
    ensures
        r == heap_w(hs, bit),
        r == 2 || r == 4,
{
    if hs & bit != 0 { 4 } else { 2 }
}

/// Parses the metadata root at `moff` and the header of its table stream.
fn parse_tables(d: &[u8], moff: u64) -> (r: Option<Result<Tables, MetadataError>>)
    requires
        moff <= u32::MAX,
        d@.len() <= u32::MAX,
    ensures
        match r {
            None => spec_tables(d@, moff as int) is None,
            Some(Err(e)) => spec_tables(d@, moff as int) == Some(Err::<TablesView, MetadataError>(e)),
            Some(Ok(t)) => t.inv() && spec_tables(d@, moff as int) == Some(Ok::<TablesView, MetadataError>(t.view())),
        },
{
    let ver_len = match rd_u32_at(d, moff + 12) {
        Some(v) => v,
        None => return None,
    };
    let p: u64 = moff + 16 + ver_len as u64;
    let n = match rd_u16_at(d, p + 2) {
        Some(v) => v,
        None => return None,
    };
    let mut q: u64 = p + 4;
    let mut tilde: Option<u64> = None;
    let mut strings: Option<u64> = None;
    let mut k: u16 = 0;
    while k < n
        invariant
            d@.len() <= u32::MAX,
            moff <= u32::MAX,
            k <= n,
            q <= 0x3_0000_0000,
            tilde matches Some(x) ==> x <= 0x2_0000_0000,
            strings matches Some(x) ==> x <= 0x2_0000_0000,
            spec_tables(d@, moff as int)
                == tables_after_streams(d@, scan_streams(d@, moff as int, q as int, n - k, opt_int(tilde), opt_int(strings))),
        decreases n - k,
    {
        let off = match rd_u32_at(d, q) {
            Some(v) => v,
            None => return None,
        };
        let e = match nul_end_at(d, q + 8) {
            Some(e) => e,
            None => return None,
        };
        proof {
            lemma_nul_end(d@, q + 8);
        }
        assert(d@.len() == d.len());
        let name = copy_range(d, (q + 8) as usize, e as usize);
        if is_table_stream(name.as_slice()) {
            tilde = Some(moff + off as u64);
        }
        if is_strings(name.as_slice()) {
            strings = Some(moff + off as u64);
        }
        q = (e + 1 + 3) / 4 * 4;
        k = k + 1;
    }
    let t = match tilde {
        Some(t) => t,
        None => return Some(Err(MetadataError::MissingTableStream)),
    };
    let so = match strings {
        Some(x) => x,
        None => return Some(Err(MetadataError::MissingStringsHeap)),
    };
    let hs = match rd_u8_at(d, t + 6) {
        Some(v) => v,
        None => return None,
    };
    let lo = match rd_u32_at(d, t + 8) {
        Some(v) => v,
        None => return None,
    };
    let hi = match rd_u32_at(d, t + 12) {
        Some(v) => v,
        None => return None,
    };
    let mut rows: Vec<u32> = Vec::new();
    let mut rowp: u64 = t + 24;
    assert(rows_view(rows@) =~= Seq::<int>::empty());
    let mut i: u32 = 0;
    while i < 64
        invariant
            d@.len() <= u32::MAX,
            t <= 0x2_0000_0000,
            so <= 0x2_0000_0000,
            i <= 64,
            rows@.len() == i,
            rowp <= t + 24 + 4 * i,
            spec_tables(d@, moff as int)
                == tables_from_rows(so as int, lo, hi, hs, read_rows(d@, lo, hi, i as int, rowp as int, rows_view(rows@))),
        decreases 64 - i,
    {
        let ghost before = rows@;
        if table_present(lo, hi, i) {
            let v = match rd_u32_at(d, rowp) {
                Some(v) => v,
                None => return None,
            };
            rows.push(v);
            rowp = rowp + 4;
            assert(rows_view(rows@) =~= rows_view(before).push(v as int));
        } else {
            rows.push(0);
            assert(rows_view(rows@) =~= rows_view(before).push(0));
        }
        i = i + 1;
    }
    let s = heap_width(hs, 1);
    let g = heap_width(hs, 2);
    let b = heap_width(hs, 4);
    let ghost rv = rows_view(rows@);
    let ghost data_start = rowp as int;
    let mut offsets: Vec<Option<u64>> = vec![None, None, None, None, None, None, None];
    let ghost none7: Seq<Option<int>> = seq![None, None, None, None, None, None, None];
    assert(offsets@.map_values(|o: Option<u64>| opt_int(o)) =~= none7);
    let mut cur: u64 = rowp;
    let mut j: u32 = 0;
    while j < 7
        invariant
            rows@.len() == 64,
            rv == rows_view(rows@),
            so <= 0x2_0000_0000,
            s == 2 || s == 4,
            g == 2 || g == 4,
            b == 2 || b == 4,
            j <= 7,
            offsets@.len() == 7,
            cur <= 0x2_0000_0200 + 0x18_0000_0000 * (j as int),
            forall|x: int| 0 <= x < 7 ==> (#[trigger] offsets@[x] matches Some(y) ==> y <= offset_bound()),
            spec_tables(d@, moff as int) == Some(Ok::<TablesView, MetadataError>(TablesView {
                strings_off: so as int,
                offsets: table_offsets(lo, hi, rv, s as int, g as int, b as int, 0, data_start, none7),
                rows: rv,
                str_w: s as int,
                guid_w: g as int,
                blob_w: b as int,
            })),
            table_offsets(lo, hi, rv, s as int, g as int, b as int, 0, data_start, none7)
                == table_offsets(lo, hi, rv, s as int, g as int, b as int, j as int, cur as int,
                    offsets@.map_values(|o: Option<u64>| opt_int(o))),
        decreases 7 - j,
    {
        if table_present(lo, hi, j) {
            let ghost before = offsets@;
            offsets.set(j as usize, Some(cur));
            assert(offsets@.map_values(|o: Option<u64>| opt_int(o))
                =~= before.map_values(|o: Option<u64>| opt_int(o)).update(j as int, Some(cur as int)));
            if j < 6 {
                let rs = row_size_of(&rows, s, g, b, j as usize);
                let n_rows = rows[j as usize] as u64;
                assert(n_rows * rs <= 0xFFFF_FFFF * 24) by (nonlinear_arith)
                    requires
                        n_rows <= 0xFFFF_FFFF,
                        rs <= 24,
                ;
                cur = cur + n_rows * rs;
            }
        }
        j = j + 1;
    }
    let tables = Tables { strings_off: so, offsets, rows, str_w: s, guid_w: g, blob_w: b };
    assert(tables.view().offsets == offsets@.map_values(|o: Option<u64>| opt_int(o)));
    Some(Ok(tables))
}

impl Tables {
    /// File offset of table `t`, which must be present.
    fn table_at(&self, t: usize) -> (r: u64)
        requires
            self.inv(),
            t < 7,
            self.offsets@[t as int] is Some,
        ensures
            self.view().offsets[t as int] == Some(r as int),
            r <= offset_bound(),
    {
        match self.offsets[t] {
            Some(o) => o,
            None => 0,
        }
    }

    /// The simple name of `TypeDef` row `r`.
    fn typedef_name(&self, d: &[u8], r: u32) -> (res: Option<Vec<u8>>)
        requires
            self.inv(),
            self.offsets@[2] is Some,
        ensures
            match res {
                Some(v) => type_name_at(d@, self.view(), r as int) == Some(v@),
                None => type_name_at(d@, self.view(), r as int) is None,
            },
    {
        let off = self.table_at(2);
        let rs = row_size_of(&self.rows, self.str_w, self.guid_w, self.blob_w, 2);
        assert(r as u64 * rs <= 0xFFFF_FFFF * 24) by (nonlinear_arith)
            requires
                r <= 0xFFFF_FFFF,
                rs <= 24,
        ;
        let o = off + r as u64 * rs + 4;
        match rd_index_at(d, o, self.str_w) {
            None => None,
            Some(idx) => heap_string_at(d, self.strings_off + idx as u64),
        }
    }

    /// The first `TypeDef` row named `name`.
    fn find_type(&self, d: &[u8], name: &[u8]) -> (res: Option<Option<u32>>)
        requires
            self.inv(),
            self.offsets@[2] is Some,
        ensures
            match res {
                None => find_type_from(d@, self.view(), name@, 0, self.view().rows[2]) is None,
                Some(None) => find_type_from(d@, self.view(), name@, 0, self.view().rows[2]) == Some(None::<int>),
                Some(Some(r)) => find_type_from(d@, self.view(), name@, 0, self.view().rows[2]) == Some(Some(r as int)),
            },
    {
        let n = self.rows[2];
        let mut r: u32 = 0;
        while r < n
            invariant
                self.inv(),
                self.offsets@[2] is Some,
                n as int == self.view().rows[2],
                r <= n,
                find_type_from(d@, self.view(), name@, 0, n as int) == find_type_from(d@, self.view(), name@, r as int, n as int),
            decreases n - r,
        {
            match self.typedef_name(d, r) {
                None => return None,
                Some(v) => {
                    if bytes_eq(v.as_slice(), name) {
                        return Some(Some(r));
                    }
                },
            }
            r = r + 1;
        }
        Some(None)
    }

    /// The `MethodList` of `TypeDef` row `row`.
    fn method_list(&self, d: &[u8], row: u32) -> (res: Option<u32>)
        requires
            self.inv(),
            self.offsets@[2] is Some,
        ensures
            match res {
                Some(v) => type_method_list(d@, self.view(), row as int) == Some(v as int),
                None => type_method_list(d@, self.view(), row as int) is None,
            },
    {
        let off = self.table_at(2);
        let rs = row_size_of(&self.rows, self.str_w, self.guid_w, self.blob_w, 2);
        assert(row as u64 * rs <= 0xFFFF_FFFF * 24) by (nonlinear_arith)
            requires
                row <= 0xFFFF_FFFF,
                rs <= 24,
        ;
        let m = max_u32(max_u32(self.rows[2], self.rows[1]), self.rows[27]);
        let extends_w = coded2_width(m);
        let field_w = simple_width(&self.rows, 4);
        let o = off + row as u64 * rs + 4 + 2 * self.str_w + extends_w + field_w;
        let w = simple_width(&self.rows, 6);
        rd_index_at(d, o, w)
    }

    /// File offset of `MethodDef` row `row0`.
    fn method_row_off(&self, row0: u32) -> (r: u64)
        requires
            self.inv(),
            self.offsets@[6] is Some,
        ensures
            r == method_row_offset(self.view(), row0 as int),
            r <= offset_bound() + 0xFFFF_FFFF * 24,
    {
        let off = self.table_at(6);
        let rs = row_size_of(&self.rows, self.str_w, self.guid_w, self.blob_w, 6);
        assert(row0 as u64 * rs <= 0xFFFF_FFFF * 24) by (nonlinear_arith)
            requires
                row0 <= 0xFFFF_FFFF,
                rs <= 24,
        ;
        off + row0 as u64 * rs
    }

    /// The name of `MethodDef` row `row0`.
    fn method_name(&self, d: &[u8], row0: u32) -> (res: Option<Vec<u8>>)
        requires
            self.inv(),
            self.offsets@[6] is Some,
        ensures
            match res {
                Some(v) => method_name_at(d@, self.view(), row0 as int) == Some(v@),
                None => method_name_at(d@, self.view(), row0 as int) is None,
            },
    {
        let base = self.method_row_off(row0);
        match rd_index_at(d, base + 8, self.str_w) {
            None => None,
            Some(idx) => heap_string_at(d, self.strings_off + idx as u64),
        }
    }

    /// The first method of the 1-based range `start..end` whose name ends with `suffix`.
    fn find_in_methods(&self, d: &[u8], suffix: &[u8], start: u32, end: u32) -> (res: Option<Option<u32>>)
        requires
            self.inv(),
            self.offsets@[6] is Some,
        ensures
            match res {
                None => find_method_from(d@, self.view(), suffix@, start as int, end as int) is None,
                Some(None) => find_method_from(d@, self.view(), suffix@, start as int, end as int) == Some(None::<int>),
                Some(Some(r)) => find_method_from(d@, self.view(), suffix@, start as int, end as int) == Some(Some(r as int)),
            },
    {
        let mut ridx = start;
        while ridx < end
            invariant
                self.inv(),
                self.offsets@[6] is Some,
                start <= ridx,
                ridx <= end || start >= end,
                find_method_from(d@, self.view(), suffix@, start as int, end as int)
                    == find_method_from(d@, self.view(), suffix@, ridx as int, end as int),
            decreases end - ridx,
        {
            if ridx == 0 {
                return None;
            }
            match self.method_name(d, ridx - 1) {
                None => return None,
                Some(n) => {
                    if bytes_end_with(n.as_slice(), suffix) {
                        return Some(Some(ridx - 1));
                    }
                },
            }
            ridx = ridx + 1;
        }
        Some(None)
    }
}

/// Looks up the method for the metadata root at `moff`; `None` where a read
/// falls outside the file.
fn locate(d: &[u8], moff: u64, wanted: &[u8], suffix: &[u8]) -> (r: Option<Result<MethodLocation, MetadataError>>)
    requires
        moff <= u32::MAX,
        d@.len() <= u32::MAX,
    ensures
        match r {
            None => spec_locate(d@, moff as int, wanted@, suffix@) is None,
            Some(x) => spec_locate(d@, moff as int, wanted@, suffix@) == Some(location_view(x)),
        },
{
    let t = match parse_tables(d, moff) {
        None => return None,
        Some(Err(e)) => return Some(Err(e)),
        Some(Ok(t)) => t,
    };
    if t.offsets[2].is_none() {
        return Some(Err(MetadataError::NoTypeDefTable));
    }
    if t.offsets[6].is_none() {
        return Some(Err(MetadataError::NoMethodDefTable));
    }
    let row = match t.find_type(d, wanted) {
        None => return None,
        Some(None) => return Some(Err(MetadataError::TypeNotFound)),
        Some(Some(r)) => r,
    };
    let n_td = t.rows[2];
    let n_md = t.rows[6];
    let start = match t.method_list(d, row) {
        None => return None,
        Some(v) => v,
    };
    let end = if row < n_td - 1 {
        match t.method_list(d, row + 1) {
            None => return None,
            Some(v) => v,
        }
    } else if n_md < u32::MAX {
        n_md + 1
    } else {
        return None;
    };
    let row0 = match t.find_in_methods(d, suffix, start, end) {
        None => return None,
        Some(None) => return Some(Err(MetadataError::MethodNotFound)),
        Some(Some(r0)) => r0,
    };
    let fo = t.method_row_off(row0);
    let rva = match rd_u32_at(d, fo) {
        None => return None,
        Some(v) => v,
    };
    if rva == 0 {
        return Some(Err(MetadataError::NoMethodBody));
    }
    Some(Ok(MethodLocation { body_rva: rva, rva_field_offset: fo as usize }))
}

/// Finds, in the type whose simple name is `type_simple_name`, the first
/// method whose name ends with `method_name_suffix` (explicit interface
/// implementations carry the interface's full name as a prefix), and returns
/// the RVA of its body and the file offset of its `MethodDef.RVA` field.
pub fn find_method(pe: &PeImage, type_simple_name: &str, method_name_suffix: &str) -> (res: Result<MethodLocation, MetadataError>)
    requires
        find_method_reads_ok(*pe, type_simple_name.spec_bytes(), method_name_suffix.spec_bytes()),
    ensures
        spec_find_method(*pe, type_simple_name.spec_bytes(), method_name_suffix.spec_bytes()) == Some(location_view(res)),
{
    let moff = match pe.metadata_root_offset() {
        Err(e) => return Err(MetadataError::Image(e)),
        Ok(m) => m,
    };
    match locate(pe.data.as_slice(), moff as u64, type_simple_name.as_bytes(), method_name_suffix.as_bytes()) {
        Some(r) => r,
        None => Err(MetadataError::MethodNotFound),
    }
}

/// `find_method` for any image whose metadata root can be read: `None` where
/// the lookup would read outside the file.
pub fn try_find_method(pe: &PeImage, type_simple_name: &str, method_name_suffix: &str) -> (res: Option<Result<MethodLocation, MetadataError>>)
    requires
        pe.data@.len() <= u32::MAX,
        metadata_root_reads_ok(pe.data@, pe.opt(), pe.table(), pe.count()),
    ensures
        match res {
            None => spec_find_method(*pe, type_simple_name.spec_bytes(), method_name_suffix.spec_bytes()) is None,
            Some(x) => spec_find_method(*pe, type_simple_name.spec_bytes(), method_name_suffix.spec_bytes()) == Some(location_view(x)),
        },
{
    let moff = match pe.metadata_root_offset() {
        Err(e) => return Some(Err(MetadataError::Image(e))),
        Ok(m) => m,
    };
    match locate(pe.data.as_slice(), moff as u64, type_simple_name.as_bytes(), method_name_suffix.as_bytes()) {
        None => None,
        Some(_) => Some(find_method(pe, type_simple_name, method_name_suffix)),
    }
}

} // verus!

verus! {

/// A method that the lookup finds comes with the `u32` its RVA field holds.
pub proof fn lemma_found_rva_is_field(pe: PeImage, wanted_type: Seq<u8>, suffix: Seq<u8>)
    ensures
        spec_find_method(pe, wanted_type, suffix) matches Some(Ok((rva, fo))) ==> (0 <= fo && fo + 4
            <= pe.data@.len() && rva == spec_u32(pe.data@, fo)),
{
}

} // verus!
