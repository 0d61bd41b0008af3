//! .NET method bodies: parsing (tiny or fat header, exception-handling
//! sections) and building a relocated body with a guard in front of its IL.
//!
//! The guard is `if (arg == value) return;`. The grown body no longer fits
//! where the old one was, so callers write it into a new section and point
//! `MethodDef.RVA` at it.

use vstd::prelude::*;
use crate::infra::bytes::copy_range;
use crate::infra::le::{le16, le32, lemma_u16_at, lemma_u32_at, rd_u16, rd_u32, spec_u16, spec_u32, u16_le_bytes, u32_le_bytes};

verus! {

pub const CORILMETHOD_TINY: u8 = 0x02;
pub const CORILMETHOD_FAT: u8 = 0x03;
pub const CORILMETHOD_MORE_SECTS: u16 = 0x08;
pub const CORILMETHOD_INIT_LOCALS: u16 = 0x10;

/// Why a method body could not be parsed.
#[derive(Debug, Clone, Copy, PartialEq, Eq)]
pub enum MethodBodyError {
    /// The header is neither tiny nor fat.
    UnknownHeaderKind,
}

impl MethodBodyError {
    /// The text shown for the error.
    pub fn message(self) -> (r: &'static str)
        ensures
            r@ == "未知的方法体头类型"@,
    {
        "未知的方法体头类型"
    }
}

/// One exception-handling clause, widened to the fat layout.
#[derive(Debug, Clone, Copy, PartialEq, Eq)]
pub struct EhClause {
    pub flags: u32,
    pub try_offset: u32,
    pub try_length: u32,
    pub handler_offset: u32,
    pub handler_length: u32,
    pub class_token_or_filter: u32,
}

/// A parsed method body.
pub struct MethodBody {
    pub max_stack: u16,
    pub local_var_sig_tok: u32,
    pub init_locals: bool,
    pub il: Vec<u8>,
    /// Exception-handling clauses, in the order the sections list them; empty when there are none.
    pub eh_clauses: Vec<EhClause>,
}

/// The mathematical content of a method body.
pub struct BodyModel {
    pub max_stack: u16,
    pub local_var_sig_tok: u32,
    pub init_locals: bool,
    pub il: Seq<u8>,
    pub eh_clauses: Seq<EhClause>,
}

impl MethodBody {
    pub open spec fn model(&self) -> BodyModel {
        BodyModel {
            max_stack: self.max_stack,
            local_var_sig_tok: self.local_var_sig_tok,
            init_locals: self.init_locals,
            il: self.il@,
            eh_clauses: self.eh_clauses@,
        }
    }
}

/// `x` rounded up to a multiple of 4.
pub open spec fn align4(x: int) -> int {
    ((x + 3) / 4) * 4
}

/// A fat clause (24 bytes) at `p`.
pub open spec fn spec_fat_clause(d: Seq<u8>, p: int) -> EhClause {
    EhClause {
        flags: spec_u32(d, p) as u32,
        try_offset: spec_u32(d, p + 4) as u32,
        try_length: spec_u32(d, p + 8) as u32,
        handler_offset: spec_u32(d, p + 12) as u32,
        handler_length: spec_u32(d, p + 16) as u32,
        class_token_or_filter: spec_u32(d, p + 20) as u32,
    }
}

/// A small clause (12 bytes) at `p`, widened.
pub open spec fn spec_small_clause(d: Seq<u8>, p: int) -> EhClause {
    EhClause {
        flags: spec_u16(d, p) as u32,
        try_offset: spec_u16(d, p + 2) as u32,
        try_length: d[p + 4] as u32,
        handler_offset: spec_u16(d, p + 5) as u32,
        handler_length: d[p + 7] as u32,
        class_token_or_filter: spec_u32(d, p + 8) as u32,
    }
}

/// The section at `sect` uses the fat layout.
pub open spec fn sect_is_fat(d: Seq<u8>, sect: int) -> bool {
    (d[sect] / 64) % 2 == 1
}

/// Another section follows the one at `sect`.
pub open spec fn sect_has_more(d: Seq<u8>, sect: int) -> bool {
    d[sect] >= 128
}

/// The data size a section header declares (its own header included).
pub open spec fn sect_data_size(d: Seq<u8>, sect: int) -> int {
    if sect_is_fat(d, sect) { spec_u32(d, sect) / 256 } else { d[sect + 1] as int }
}

/// Number of clauses in the section at `sect`.
pub open spec fn sect_clause_count(d: Seq<u8>, sect: int) -> int {
    if sect_is_fat(d, sect) { (sect_data_size(d, sect) - 4) / 24 } else { (sect_data_size(d, sect) - 4) / 12 }
}

/// The clauses listed by the section at `sect`.
pub open spec fn sect_clauses(d: Seq<u8>, sect: int) -> Seq<EhClause> {
    if sect_is_fat(d, sect) {
        Seq::new(sect_clause_count(d, sect) as nat, |j: int| spec_fat_clause(d, sect + 4 + 24 * j))
    } else {
        Seq::new(sect_clause_count(d, sect) as nat, |j: int| spec_small_clause(d, sect + 4 + 12 * j))
    }
}

/// Where the section after the one at `sect` starts.
pub open spec fn next_sect(d: Seq<u8>, sect: int) -> int {
    align4(sect + sect_data_size(d, sect))
}

/// The section at `sect` can be read in full.
pub open spec fn sect_readable(d: Seq<u8>, sect: int) -> bool {
    &&& 0 <= sect
    &&& sect + 4 <= d.len()
    &&& sect_data_size(d, sect) >= 4
    &&& sect + 4 + sect_clause_count(d, sect) * (if sect_is_fat(d, sect) { 24int } else { 12int }) <= d.len()
}

/// The chain of sections from `sect` can be read in full and ends.
pub open spec fn eh_chain_ok(d: Seq<u8>, sect: int) -> bool
    decreases d.len() - sect,
{
    if !sect_readable(d, sect) {
        false
    } else if !sect_has_more(d, sect) {
        true
    } else if next_sect(d, sect) <= sect || next_sect(d, sect) >= d.len() {
        false
    } else {
        eh_chain_ok(d, next_sect(d, sect))
    }
}

/// All clauses of the chain of sections starting at `sect`.
pub open spec fn eh_chain_clauses(d: Seq<u8>, sect: int) -> Seq<EhClause>
    decreases d.len() - sect,
{
    if !sect_readable(d, sect) || !sect_has_more(d, sect) || next_sect(d, sect) <= sect
        || next_sect(d, sect) >= d.len() {
        sect_clauses(d, sect)
    } else {
        sect_clauses(d, sect) + eh_chain_clauses(d, next_sect(d, sect))
    }
}

/// The fat header's flags.
pub open spec fn fat_flags(d: Seq<u8>, off: int) -> int {
    spec_u16(d, off)
}

/// Header length of a fat body, in bytes.
pub open spec fn fat_header_len(d: Seq<u8>, off: int) -> int {
    (fat_flags(d, off) / 4096) * 4
}

/// Code size of a fat body.
pub open spec fn fat_code_size(d: Seq<u8>, off: int) -> int {
    spec_u32(d, off + 4)
}

/// The fat body declares extra (exception-handling) sections.
pub open spec fn fat_more_sects(d: Seq<u8>, off: int) -> bool {
    (fat_flags(d, off) / 8) % 2 == 1
}

/// Where the first extra section of a fat body starts.
pub open spec fn first_sect(d: Seq<u8>, off: int) -> int {
    align4(off + fat_header_len(d, off) + fat_code_size(d, off))
}

/// The body at `off` is tiny.
pub open spec fn is_tiny(d: Seq<u8>, off: int) -> bool {
    d[off] % 4 == 2
}

/// The body at `off` is fat.
pub open spec fn is_fat(d: Seq<u8>, off: int) -> bool {
    d[off] % 4 == 3
}

/// Every read of `parse` at `off` is in bounds and its EH chain ends.
pub open spec fn body_reads_ok(d: Seq<u8>, off: int) -> bool {
    &&& 0 <= off < d.len()
    &&& is_tiny(d, off) ==> off + 1 + d[off] / 4 <= d.len()
    &&& is_fat(d, off) ==> {
        &&& off + 12 <= d.len()
        &&& off + fat_header_len(d, off) + fat_code_size(d, off) <= d.len()
        &&& fat_more_sects(d, off) ==> eh_chain_ok(d, first_sect(d, off))
    }
}

/// What `parse` gives for the body at `off`.
pub open spec fn spec_parse_body(d: Seq<u8>, off: int) -> Result<BodyModel, MethodBodyError> {
    if is_tiny(d, off) {
        Ok(BodyModel {
            max_stack: 8,
            local_var_sig_tok: 0,
            init_locals: false,
            il: d.subrange(off + 1, off + 1 + d[off] / 4),
            eh_clauses: Seq::empty(),
        })
    } else if !is_fat(d, off) {
        Err(MethodBodyError::UnknownHeaderKind)
    } else {
        let il_off = off + fat_header_len(d, off);
        Ok(BodyModel {
            max_stack: spec_u16(d, off + 2) as u16,
            local_var_sig_tok: spec_u32(d, off + 8) as u32,
            init_locals: (fat_flags(d, off) / 16) % 2 == 1,
            il: d.subrange(il_off, il_off + fat_code_size(d, off)),
            eh_clauses: if fat_more_sects(d, off) {
                eh_chain_clauses(d, first_sect(d, off))
            } else {
                Seq::empty()
            },
        })
    }
}


// ---------------------------------------------------------------- building a guarded body

/// The signed value as the `u32` of the same bits.
pub open spec fn i32_bits(v: i32) -> int {
    if v < 0 { v + 0x1_0000_0000 } else { v as int }
}

/// The guard IL `ldarg <n>; ldc.i4 <value>; bne.un.s +1; ret`, in its shortest encodings.
pub open spec fn spec_guard(arg_index: u8, value: i32) -> Seq<u8> {
    let ldarg = if arg_index <= 3 { seq![(2 + arg_index) as u8] } else { seq![0x0Eu8, arg_index] };
    let ldc = if 0 <= value <= 8 {
        seq![(0x16 + value) as u8]
    } else if value == -1 {
        seq![0x15u8]
    } else if -128 <= value <= 127 {
        seq![0x1Fu8, (if value < 0 { value + 256 } else { value as int }) as u8]
    } else {
        seq![0x20u8] + le32(i32_bits(value))
    };
    ldarg + ldc + seq![0x33u8, 0x01u8, 0x2Au8]
}

/// A clause in fat layout, with its offsets moved past a guard of `glen` bytes
/// (a filter's offset moves too; a catch's class token does not).
pub open spec fn clause_bytes(c: EhClause, glen: int) -> Seq<u8> {
    le32(c.flags as int) + le32(c.try_offset + glen) + le32(c.try_length as int) + le32(c.handler_offset + glen)
        + le32(c.handler_length as int) + le32(
        if c.flags % 2 == 1 { c.class_token_or_filter + glen } else { c.class_token_or_filter as int },
    )
}

/// All clauses, in fat layout, one after the other.
pub open spec fn clauses_bytes(cs: Seq<EhClause>, glen: int) -> Seq<u8>
    decreases cs.len(),
{
    if cs.len() == 0 {
        Seq::empty()
    } else {
        clauses_bytes(cs.drop_last(), glen) + clause_bytes(cs.last(), glen)
    }
}

/// The shifted offsets still fit in `u32`.
pub open spec fn clauses_shift_fits(cs: Seq<EhClause>, glen: int) -> bool {
    forall|i: int| 0 <= i < cs.len() ==> {
        &&& #[trigger] cs[i].try_offset + glen <= u32::MAX
        &&& cs[i].handler_offset + glen <= u32::MAX
        &&& (cs[i].flags % 2 == 1 ==> cs[i].class_token_or_filter + glen <= u32::MAX)
    }
}

/// The fat header flags of the guarded body.
pub open spec fn guarded_flags(m: BodyModel) -> int {
    0x3000 + 3 + (if m.init_locals { 0x10int } else { 0 }) + (if m.eh_clauses.len() > 0 { 0x08int } else { 0 })
}

/// `max_stack` raised to the two slots the guard needs.
pub open spec fn guarded_max_stack(m: BodyModel) -> u16 {
    if m.max_stack >= 2 { m.max_stack } else { 2 }
}

/// The 12-byte fat header and the guarded IL.
pub open spec fn guarded_head(m: BodyModel, arg_index: u8, value: i32) -> Seq<u8> {
    let new_il = spec_guard(arg_index, value) + m.il;
    le16(guarded_flags(m)) + le16(guarded_max_stack(m) as int) + le32((new_il.len() as u32) as int)
        + le32(m.local_var_sig_tok as int) + new_il
}

/// The EH section header word: kind `EHTable | FatFormat` and the data size.
pub open spec fn eh_header_word(n: int) -> int {
    (0x41 + ((4 + n * 24) as u32) * 256) % 0x1_0000_0000
}

/// The body `build_with_guard` produces: always a fat header, and a single fat
/// EH section when the method has clauses.
pub open spec fn spec_guarded_body(m: BodyModel, arg_index: u8, value: i32) -> Seq<u8> {
    let head = guarded_head(m, arg_index, value);
    let glen = spec_guard(arg_index, value).len() as int;
    if m.eh_clauses.len() == 0 {
        head
    } else {
        head + Seq::new((align4(head.len() as int) - head.len()) as nat, |i: int| 0u8)
            + le32(eh_header_word(m.eh_clauses.len() as int)) + clauses_bytes(m.eh_clauses, glen)
    }
}

/// Builds the guard IL `ldarg.<n>; ldc.i4 <value>; bne.un.s +1; ret`.
pub fn build_guard(arg_index: u8, value: i32) -> (g: Vec<u8>)
    ensures
        g@ == spec_guard(arg_index, value),
{
    let mut g: Vec<u8> = Vec::new();
    if arg_index <= 3 {
        g.push(0x02 + arg_index);
    } else {
        g.push(0x0E);
        g.push(arg_index);
    }
    if 0 <= value && value <= 8 {
        g.push(0x16 + value as u8);
    } else if value == -1 {
        g.push(0x15);
    } else if -128 <= value && value <= 127 {
        g.push(0x1F);
        let b: u8 = if value < 0 { (value + 256) as u8 } else { value as u8 };
        g.push(b);
    } else {
        g.push(0x20);
        let bits: u32 = if value < 0 { (value as i64 + 0x1_0000_0000) as u32 } else { value as u32 };
        let b = u32_le_bytes(bits);
        g.extend_from_slice(b.as_slice());
    }
    g.push(0x33);
    g.push(0x01);
    g.push(0x2A);
    assert(g@ =~= spec_guard(arg_index, value));
    g
}

/// The guard is between 5 and 10 bytes long.
pub proof fn lemma_guard_len(arg_index: u8, value: i32)
    ensures
        5 <= spec_guard(arg_index, value).len() <= 10,
{
}

fn read_fat_clause(d: &[u8], p: usize) -> (c: EhClause)
    requires
        p + 24 <= d@.len(),
    ensures
        c == spec_fat_clause(d@, p as int),
{
    assert(d@.len() == d.len());
    EhClause {
        flags: rd_u32(d, p),
        try_offset: rd_u32(d, p + 4),
        try_length: rd_u32(d, p + 8),
        handler_offset: rd_u32(d, p + 12),
        handler_length: rd_u32(d, p + 16),
        class_token_or_filter: rd_u32(d, p + 20),
    }
}

fn read_small_clause(d: &[u8], p: usize) -> (c: EhClause)
    requires
        p + 12 <= d@.len(),
    ensures
        c == spec_small_clause(d@, p as int),
{
    assert(d@.len() == d.len());
    EhClause {
        flags: rd_u16(d, p) as u32,
        try_offset: rd_u16(d, p + 2) as u32,
        try_length: d[p + 4] as u32,
        handler_offset: rd_u16(d, p + 5) as u32,
        handler_length: d[p + 7] as u32,
        class_token_or_filter: rd_u32(d, p + 8),
    }
}

/// Appends the clauses of the section at `sect` to `out`.
fn read_section_clauses(d: &[u8], sect: usize, out: &mut Vec<EhClause>)
    requires
        sect_readable(d@, sect as int),
    ensures
        final(out)@ == old(out)@ + sect_clauses(d@, sect as int),
{
    let ghost start = out@;
    assert(d@.len() == d.len());
    let kind = d[sect];
    let is_fat = (kind / 64) % 2 == 1;
    if is_fat {
        let data_size = (rd_u32(d, sect) / 256) as usize;
        let n = (data_size - 4) / 24;
        let mut p = sect + 4;
        let mut j: usize = 0;
        while j < n
            invariant
                sect_readable(d@, sect as int),
                sect_is_fat(d@, sect as int),
                n == sect_clause_count(d@, sect as int),
                d@.len() == d.len(),
                j <= n,
                p == sect + 4 + 24 * j,
                out@ =~= start + sect_clauses(d@, sect as int).take(j as int),
            decreases n - j,
        {
            out.push(read_fat_clause(d, p));
            p = p + 24;
            j = j + 1;
        }
        assert(sect_clauses(d@, sect as int).take(n as int) =~= sect_clauses(d@, sect as int));
    } else {
        let data_size = d[sect + 1] as usize;
        let n = (data_size - 4) / 12;
        let mut p = sect + 4;
        let mut j: usize = 0;
        while j < n
            invariant
                sect_readable(d@, sect as int),
                !sect_is_fat(d@, sect as int),
                n == sect_clause_count(d@, sect as int),
                d@.len() == d.len(),
                j <= n,
                p == sect + 4 + 12 * j,
                out@ =~= start + sect_clauses(d@, sect as int).take(j as int),
            decreases n - j,
        {
            out.push(read_small_clause(d, p));
            p = p + 12;
            j = j + 1;
        }
        assert(sect_clauses(d@, sect as int).take(n as int) =~= sect_clauses(d@, sect as int));
    }
}

impl MethodBody {
    /// Parses the method body at file offset `off` (tiny or fat header).
    pub fn parse(data: &[u8], off: usize) -> (res: Result<Self, MethodBodyError>)
        requires
            body_reads_ok(data@, off as int),
        ensures
            match res {
                Ok(b) => spec_parse_body(data@, off as int) == Ok::<BodyModel, MethodBodyError>(b.model()),
                Err(e) => spec_parse_body(data@, off as int) == Err::<BodyModel, MethodBodyError>(e),
            },
    {
        assert(data@.len() == data.len());
        let first = data[off];
        if first % 4 == CORILMETHOD_TINY {
            let code_size = (first / 4) as usize;
            let il = copy_range(data, off + 1, off + 1 + code_size);
            return Ok(MethodBody { max_stack: 8, local_var_sig_tok: 0, init_locals: false, il, eh_clauses: Vec::new() });
        }
        if first % 4 != CORILMETHOD_FAT {
            return Err(MethodBodyError::UnknownHeaderKind);
        }
        let flags_size = rd_u16(data, off);
        let header_len = ((flags_size / 4096) as usize) * 4;
        let max_stack = rd_u16(data, off + 2);
        let code_size = rd_u32(data, off + 4) as usize;
        let local_var_sig_tok = rd_u32(data, off + 8);
        let init_locals = (flags_size / 16) % 2 == 1;
        let il_off = off + header_len;
        let il = copy_range(data, il_off, il_off + code_size);

        let mut eh_clauses: Vec<EhClause> = Vec::new();
        if (flags_size / 8) % 2 == 1 {
            let mut sect = ((il_off + code_size + 3) / 4) * 4;
            let ghost first_s = sect as int;
            loop
                invariant_except_break
                    eh_chain_ok(data@, sect as int),
                    eh_chain_clauses(data@, first_s) == eh_clauses@ + eh_chain_clauses(data@, sect as int),
                invariant
                    data@.len() == data.len(),
                ensures
                    eh_chain_clauses(data@, first_s) == eh_clauses@,
                decreases data@.len() - sect,
            {
                let ghost before = eh_clauses@;
                read_section_clauses(data, sect, &mut eh_clauses);
                let kind = data[sect];
                let more = kind >= 128;
                if !more {
                    assert(eh_chain_clauses(data@, sect as int) == sect_clauses(data@, sect as int));
                    assert(eh_clauses@ == before + sect_clauses(data@, sect as int));
                    break;
                }
                let consumed = if (kind / 64) % 2 == 1 {
                    (rd_u32(data, sect) / 256) as usize
                } else {
                    data[sect + 1] as usize
                };
                let ghost prev = sect as int;
                sect = ((sect + consumed + 3) / 4) * 4;
                assert(sect as int == next_sect(data@, prev));
                assert(eh_chain_clauses(data@, prev) == sect_clauses(data@, prev) + eh_chain_clauses(data@, sect as int));
                assert(eh_clauses@ == before + sect_clauses(data@, prev));
                assert(eh_chain_clauses(data@, first_s) =~= eh_clauses@ + eh_chain_clauses(data@, sect as int));
            }
        }
        let ghost sd = data@;
        Ok(MethodBody { max_stack, local_var_sig_tok, init_locals, il, eh_clauses })
    }

    /// Builds the body with the guard `if (arg == value) return;` in front of
    /// the IL, always with a fat header.
    ///
    /// The guard needs two evaluation-stack slots, so `max_stack` is raised to
    /// at least 2; exception clauses move by the guard's length (a filter's
    /// offset too, a catch's class token not).
    pub fn build_with_guard(&self, arg_index: u8, value: i32) -> (out: Vec<u8>)
        requires
            self.il@.len() + 64 <= usize::MAX,
            self.eh_clauses@.len() * 24 + 4 <= usize::MAX,
            clauses_shift_fits(self.eh_clauses@, spec_guard(arg_index, value).len() as int),
        ensures
            out@ == spec_guarded_body(self.model(), arg_index, value),
    {
        let guard = build_guard(arg_index, value);
        proof {
            lemma_guard_len(arg_index, value);
        }
        let glen = guard.len() as u32;
        let mut out = self.guarded_head(guard.as_slice(), arg_index, value);
        if self.eh_clauses.len() == 0 {
            return out;
        }
        let ghost head = out@;
        pad_to_4(&mut out);
        let n = self.eh_clauses.len();
        let data_size = 4 + n * 24;
        let ds32 = #[verifier::truncate] (data_size as u32);
        let h64: u64 = (0x41 + ds32 as u64 * 256) % 0x1_0000_0000;
        let header = h64 as u32;
        let b = u32_le_bytes(header);
        out.extend_from_slice(b.as_slice());
        append_clauses(&mut out, &self.eh_clauses, glen);
        assert(out@ =~= spec_guarded_body(self.model(), arg_index, value));
        out
    }

    /// The fat header followed by the guard and the original IL.
    fn guarded_head(&self, guard: &[u8], arg_index: u8, value: i32) -> (out: Vec<u8>)
        requires
            guard@ == spec_guard(arg_index, value),
            self.il@.len() + 64 <= usize::MAX,
        ensures
            out@ == guarded_head(self.model(), arg_index, value),
            out@.len() + 32 <= usize::MAX,
    {
        proof {
            lemma_guard_len(arg_index, value);
        }
        let mut new_il: Vec<u8> = Vec::new();
        new_il.extend_from_slice(guard);
        new_il.extend_from_slice(self.il.as_slice());
        assert(new_il@ =~= guard@ + self.il@);
        let code_size = #[verifier::truncate] (new_il.len() as u32);
        let max_stack = if self.max_stack >= 2 { self.max_stack } else { 2 };
        let mut flags: u16 = CORILMETHOD_FAT as u16;
        if self.init_locals {
            flags = flags + CORILMETHOD_INIT_LOCALS;
        }
        if self.eh_clauses.len() > 0 {
            flags = flags + CORILMETHOD_MORE_SECTS;
        }
        let flags_size = 0x3000 + flags;
        let mut out: Vec<u8> = Vec::new();
        let b = u16_le_bytes(flags_size);
        out.extend_from_slice(b.as_slice());
        let b = u16_le_bytes(max_stack);
        out.extend_from_slice(b.as_slice());
        let b = u32_le_bytes(code_size);
        out.extend_from_slice(b.as_slice());
        let b = u32_le_bytes(self.local_var_sig_tok);
        out.extend_from_slice(b.as_slice());
        out.extend_from_slice(new_il.as_slice());
        assert(out@ =~= guarded_head(self.model(), arg_index, value));
        out
    }
}

/// Zero-pads `out` to a multiple of 4 bytes.
fn pad_to_4(out: &mut Vec<u8>)
    requires
        old(out)@.len() + 4 <= usize::MAX,
    ensures
        final(out)@ == old(out)@ + Seq::new((align4(old(out)@.len() as int) - old(out)@.len()) as nat, |i: int| 0u8),
        final(out)@.len() == align4(old(out)@.len() as int),
{
    let ghost head = out@;
    while out.len() % 4 != 0
        invariant
            head.len() <= out@.len() <= align4(head.len() as int),
            head.len() + 4 <= usize::MAX,
            out@ =~= head + Seq::new((out@.len() - head.len()) as nat, |i: int| 0u8),
        decreases align4(head.len() as int) - out@.len(),
    {
        out.push(0);
    }
}

/// Appends every clause in fat layout, its offsets moved by `glen`.
fn append_clauses(out: &mut Vec<u8>, clauses: &Vec<EhClause>, glen: u32)
    requires
        clauses_shift_fits(clauses@, glen as int),
    ensures
        final(out)@ == old(out)@ + clauses_bytes(clauses@, glen as int),
{
    let ghost before = out@;
    let n = clauses.len();
    let mut j: usize = 0;
    while j < n
        invariant
            n == clauses@.len(),
            j <= n,
            clauses_shift_fits(clauses@, glen as int),
            out@ =~= before + clauses_bytes(clauses@.take(j as int), glen as int),
        decreases n - j,
    {
        let c = clauses[j];
        assert(c == clauses@[j as int]);
        let is_filter = c.flags % 2 == 1;
        let mut one: Vec<u8> = Vec::new();
        let b = u32_le_bytes(c.flags);
        one.extend_from_slice(b.as_slice());
        let b = u32_le_bytes(c.try_offset + glen);
        one.extend_from_slice(b.as_slice());
        let b = u32_le_bytes(c.try_length);
        one.extend_from_slice(b.as_slice());
        let b = u32_le_bytes(c.handler_offset + glen);
        one.extend_from_slice(b.as_slice());
        let b = u32_le_bytes(c.handler_length);
        one.extend_from_slice(b.as_slice());
        let last = if is_filter { c.class_token_or_filter + glen } else { c.class_token_or_filter };
        let b = u32_le_bytes(last);
        one.extend_from_slice(b.as_slice());
        assert(one@ =~= clause_bytes(c, glen as int));
        out.extend_from_slice(one.as_slice());
        assert(clauses@.take(j + 1).drop_last() =~= clauses@.take(j as int));
        assert(clauses@.take(j + 1).last() == c);
        j = j + 1;
    }
    assert(clauses@.take(n as int) =~= clauses@);
}

// ---------------------------------------------------------------- reading a guarded body back

/// A clause with its offsets moved past a guard of `glen` bytes (a filter's
/// offset too, a catch's class token not).
pub open spec fn shifted_clause(c: EhClause, glen: int) -> EhClause {
    EhClause {
        flags: c.flags,
        try_offset: (c.try_offset + glen) as u32,
        try_length: c.try_length,
        handler_offset: (c.handler_offset + glen) as u32,
        handler_length: c.handler_length,
        class_token_or_filter: if c.flags % 2 == 1 { (c.class_token_or_filter + glen) as u32 } else { c.class_token_or_filter },
    }
}

/// The body a guarded body reads as: the guard in front of the IL, the
/// clauses moved past it, `max_stack` at least 2.
pub open spec fn guarded_model(m: BodyModel, arg_index: u8, value: i32) -> BodyModel {
    let glen = spec_guard(arg_index, value).len() as int;
    BodyModel {
        max_stack: guarded_max_stack(m),
        local_var_sig_tok: m.local_var_sig_tok,
        init_locals: m.init_locals,
        il: spec_guard(arg_index, value) + m.il,
        eh_clauses: m.eh_clauses.map_values(|c: EhClause| shifted_clause(c, glen)),
    }
}

proof fn lemma_clauses_bytes(cs: Seq<EhClause>, glen: int)
    ensures
        clauses_bytes(cs, glen).len() == 24 * cs.len(),
        forall|j: int| 0 <= j < cs.len() ==> #[trigger] clauses_bytes(cs, glen).subrange(24 * j, 24 * j + 24) == clause_bytes(cs[j], glen),
    decreases cs.len(),
{
    if cs.len() > 0 {
        let init = cs.drop_last();
        lemma_clauses_bytes(init, glen);
        let all = clauses_bytes(cs, glen);
        assert forall|j: int| 0 <= j < cs.len() implies #[trigger] all.subrange(24 * j, 24 * j + 24) == clause_bytes(cs[j], glen) by {
            if j < init.len() {
                assert(all.subrange(24 * j, 24 * j + 24) =~= clauses_bytes(init, glen).subrange(24 * j, 24 * j + 24));
                assert(init[j] == cs[j]);
            } else {
                assert(all.subrange(24 * j, 24 * j + 24) =~= clause_bytes(cs.last(), glen));
            }
        }
    }
}

proof fn lemma_read_clause(s: Seq<u8>, o: int, c: EhClause, glen: int)
    requires
        0 <= o,
        o + 24 <= s.len(),
        0 <= glen,
        s.subrange(o, o + 24) == clause_bytes(c, glen),
        c.try_offset + glen <= u32::MAX,
        c.handler_offset + glen <= u32::MAX,
        c.flags % 2 == 1 ==> c.class_token_or_filter + glen <= u32::MAX,
    ensures
        spec_fat_clause(s, o) == shifted_clause(c, glen),
{
    let w = clause_bytes(c, glen);
    let filter = if c.flags % 2 == 1 { c.class_token_or_filter + glen } else { c.class_token_or_filter as int };
    assert(s.subrange(o, o + 4) =~= w.subrange(0, 4));
    assert(w.subrange(0, 4) =~= le32(c.flags as int));
    lemma_u32_at(s, o, c.flags as int);
    assert(s.subrange(o + 4, o + 8) =~= w.subrange(4, 8));
    assert(w.subrange(4, 8) =~= le32(c.try_offset + glen));
    lemma_u32_at(s, o + 4, c.try_offset + glen);
    assert(s.subrange(o + 8, o + 12) =~= w.subrange(8, 12));
    assert(w.subrange(8, 12) =~= le32(c.try_length as int));
    lemma_u32_at(s, o + 8, c.try_length as int);
    assert(s.subrange(o + 12, o + 16) =~= w.subrange(12, 16));
    assert(w.subrange(12, 16) =~= le32(c.handler_offset + glen));
    lemma_u32_at(s, o + 12, c.handler_offset + glen);
    assert(s.subrange(o + 16, o + 20) =~= w.subrange(16, 20));
    assert(w.subrange(16, 20) =~= le32(c.handler_length as int));
    lemma_u32_at(s, o + 16, c.handler_length as int);
    assert(s.subrange(o + 20, o + 24) =~= w.subrange(20, 24));
    assert(w.subrange(20, 24) =~= le32(filter));
    lemma_u32_at(s, o + 20, filter);
}

proof fn lemma_guarded_flags(m: BodyModel)
    ensures
        guarded_flags(m) <= u16::MAX,
        (guarded_flags(m) % 256) % 4 == 3,
        guarded_flags(m) / 4096 == 3,
        ((guarded_flags(m) / 8) % 2 == 1) == (m.eh_clauses.len() > 0),
        ((guarded_flags(m) / 16) % 2 == 1) == m.init_locals,
{
    let f = guarded_flags(m);
    if m.init_locals {
        if m.eh_clauses.len() > 0 {
            assert(f == 0x301B);
        } else {
            assert(f == 0x3013);
        }
    } else {
        if m.eh_clauses.len() > 0 {
            assert(f == 0x300B);
        } else {
            assert(f == 0x3003);
        }
    }
}

/// The fixed header of a guarded body reads back.
proof fn lemma_guarded_header(m: BodyModel, arg_index: u8, value: i32, b: Seq<u8>)
    requires
        m.il.len() + 10 <= u32::MAX,
        b.len() >= guarded_head(m, arg_index, value).len(),
        b.subrange(0, guarded_head(m, arg_index, value).len() as int) == guarded_head(m, arg_index, value),
    ensures
        ({
            let il2 = spec_guard(arg_index, value) + m.il;
            &&& guarded_head(m, arg_index, value).len() == 12 + il2.len()
            &&& spec_u16(b, 0) == guarded_flags(m)
            &&& spec_u16(b, 2) == guarded_max_stack(m) as int
            &&& spec_u32(b, 4) == il2.len()
            &&& spec_u32(b, 8) == m.local_var_sig_tok as int
            &&& b[0] as int == guarded_flags(m) % 256
            &&& b.subrange(12, 12 + il2.len() as int) == il2
        }),
{
    lemma_guard_len(arg_index, value);
    lemma_guarded_flags(m);
    let il2 = spec_guard(arg_index, value) + m.il;
    let n_il = il2.len() as int;
    let flags = guarded_flags(m);
    let head = guarded_head(m, arg_index, value);
    assert(head.len() == 12 + n_il);
    assert forall|k: int| 0 <= k < head.len() implies b[k] == head[k] by {
        assert(b.subrange(0, head.len() as int)[k] == b[k]);
    }
    let ms = guarded_max_stack(m) as int;
    assert(head =~= le16(flags) + le16(ms) + le32((n_il as u32) as int) + le32(m.local_var_sig_tok as int) + il2);
    assert(b.subrange(0, 2) =~= le16(flags));
    lemma_u16_at(b, 0, flags);
    assert(b.subrange(2, 4) =~= le16(guarded_max_stack(m) as int));
    lemma_u16_at(b, 2, guarded_max_stack(m) as int);
    assert(b.subrange(4, 8) =~= le32((n_il as u32) as int));
    lemma_u32_at(b, 4, n_il);
    assert(b.subrange(8, 12) =~= le32(m.local_var_sig_tok as int));
    lemma_u32_at(b, 8, m.local_var_sig_tok as int);
    assert(b[0] == b.subrange(0, 2)[0]);
    assert(b.subrange(12, 12 + n_il) =~= il2);
}

/// The exception-handling section of a guarded body with clauses reads back.
#[verifier::spinoff_prover]
#[verifier::rlimit(50)]
proof fn lemma_guarded_eh(m: BodyModel, arg_index: u8, value: i32)
    requires
        m.il.len() + 10 <= u32::MAX,
        m.eh_clauses.len() > 0,
        m.eh_clauses.len() * 24 + 4 < 0x100_0000,
        clauses_shift_fits(m.eh_clauses, spec_guard(arg_index, value).len() as int),
    ensures
        ({
            let b = spec_guarded_body(m, arg_index, value);
            let sect = align4(guarded_head(m, arg_index, value).len() as int);
            &&& sect_readable(b, sect)
            &&& !sect_has_more(b, sect)
            &&& sect_clauses(b, sect) == guarded_model(m, arg_index, value).eh_clauses
            &&& b.subrange(0, guarded_head(m, arg_index, value).len() as int) == guarded_head(m, arg_index, value)
        }),
{
    let g = spec_guard(arg_index, value);
    let glen = g.len() as int;
    let head = guarded_head(m, arg_index, value);
    let b = spec_guarded_body(m, arg_index, value);
    let n = m.eh_clauses.len() as int;
    let sect = align4(head.len() as int);
    let pad = Seq::new((sect - head.len()) as nat, |i: int| 0u8);
    let word = eh_header_word(n);
    let cb = clauses_bytes(m.eh_clauses, glen);
    lemma_clauses_bytes(m.eh_clauses, glen);
    assert(b =~= head + pad + le32(word) + cb);
    assert(b.subrange(0, head.len() as int) =~= head);
    assert(word == 0x41 + (4 + n * 24) * 256);
    assert(b.subrange(sect, sect + 4) =~= le32(word));
    lemma_u32_at(b, sect, word);
    assert(b[sect] == b.subrange(sect, sect + 4)[0]);
    assert(sect_data_size(b, sect) == 4 + n * 24);
    let gm = guarded_model(m, arg_index, value);
    assert forall|j: int| 0 <= j < n implies #[trigger] sect_clauses(b, sect)[j] == gm.eh_clauses[j] by {
        let o = sect + 4 + 24 * j;
        assert(b.subrange(o, o + 24) =~= cb.subrange(24 * j, 24 * j + 24));
        lemma_read_clause(b, o, m.eh_clauses[j], glen);
    }
    assert(sect_clauses(b, sect) =~= gm.eh_clauses);
}

/// A guarded body reads back as the guarded model: it is a fat body whose
/// every read is in bounds, its IL starts with the guard, and its clauses are
/// the original ones moved past the guard. So a second injection finds the
/// guard already in place.
pub proof fn lemma_guarded_body_reparses(m: BodyModel, arg_index: u8, value: i32)
    requires
        m.il.len() + 10 <= u32::MAX,
        m.eh_clauses.len() * 24 + 4 < 0x100_0000,
        clauses_shift_fits(m.eh_clauses, spec_guard(arg_index, value).len() as int),
    ensures
        body_reads_ok(spec_guarded_body(m, arg_index, value), 0),
        spec_parse_body(spec_guarded_body(m, arg_index, value), 0) == Ok::<BodyModel, MethodBodyError>(guarded_model(m, arg_index, value)),
{
    let b = spec_guarded_body(m, arg_index, value);
    let head = guarded_head(m, arg_index, value);
    lemma_guarded_flags(m);
    if m.eh_clauses.len() > 0 {
        lemma_guarded_eh(m, arg_index, value);
    } else {
        assert(b.subrange(0, head.len() as int) =~= head);
        assert(guarded_model(m, arg_index, value).eh_clauses =~= Seq::<EhClause>::empty());
    }
    lemma_guarded_header(m, arg_index, value, b);
}

} // verus!

verus! {

/// `b` lies in `d` at `r`.
pub open spec fn embedded_at(d: Seq<u8>, r: int, b: Seq<u8>) -> bool {
    &&& 0 <= r
    &&& r + b.len() <= d.len()
    &&& forall|k: int| 0 <= k < b.len() ==> #[trigger] d[r + k] == b[k]
}

proof fn lemma_align4_shift(r: int, x: int)
    requires
        r >= 0,
        r % 4 == 0,
        x >= 0,
    ensures
        align4(r + x) == r + align4(x),
{
    assert(((r + x + 3) / 4) * 4 == r + ((x + 3) / 4) * 4) by (nonlinear_arith)
        requires
            r >= 0,
            r % 4 == 0,
            x >= 0,
    {
        let k = r / 4;
        assert(r == 4 * k);
        assert((4 * k + (x + 3)) / 4 == k + (x + 3) / 4);
    }
}

proof fn lemma_u32_shift(d: Seq<u8>, r: int, b: Seq<u8>, p: int)
    requires
        embedded_at(d, r, b),
        0 <= p,
        p + 4 <= b.len(),
    ensures
        spec_u32(d, r + p) == spec_u32(b, p),
        spec_u16(d, r + p) == spec_u16(b, p),
{
    assert(d[r + p] == b[p]);
    assert(d[r + (p + 1)] == b[p + 1]);
    assert(d[r + (p + 2)] == b[p + 2]);
    assert(d[r + (p + 3)] == b[p + 3]);
}

proof fn lemma_u16_shift(d: Seq<u8>, r: int, b: Seq<u8>, p: int)
    requires
        embedded_at(d, r, b),
        0 <= p,
        p + 2 <= b.len(),
    ensures
        spec_u16(d, r + p) == spec_u16(b, p),
{
    assert(d[r + p] == b[p]);
    assert(d[r + (p + 1)] == b[p + 1]);
}

/// A readable exception section reads the same inside `d`.
proof fn lemma_sect_shift(d: Seq<u8>, r: int, b: Seq<u8>, s: int)
    requires
        embedded_at(d, r, b),
        sect_readable(b, s),
    ensures
        sect_readable(d, r + s),
        sect_is_fat(d, r + s) == sect_is_fat(b, s),
        sect_has_more(d, r + s) == sect_has_more(b, s),
        sect_data_size(d, r + s) == sect_data_size(b, s),
        sect_clauses(d, r + s) == sect_clauses(b, s),
{
    assert(d[r + s] == b[s]);
    assert(d[r + (s + 1)] == b[s + 1]);
    lemma_u32_shift(d, r, b, s);
    let n = sect_clause_count(b, s);
    if sect_is_fat(b, s) {
        assert forall|j: int| 0 <= j < n implies #[trigger] spec_fat_clause(d, r + s + 4 + 24 * j) == spec_fat_clause(b, s + 4 + 24 * j) by {
            assert(s + 4 + 24 * j + 24 <= s + 4 + n * 24) by (nonlinear_arith)
                requires
                    0 <= j < n,
            ;
            let q = s + 4 + 24 * j;
            lemma_u32_shift(d, r, b, q);
            lemma_u32_shift(d, r, b, q + 4);
            lemma_u32_shift(d, r, b, q + 8);
            lemma_u32_shift(d, r, b, q + 12);
            lemma_u32_shift(d, r, b, q + 16);
            lemma_u32_shift(d, r, b, q + 20);
            assert(r + q + 4 == r + (q + 4));
        }
        assert(sect_clauses(d, r + s) =~= sect_clauses(b, s)) by {
            assert forall|j: int| 0 <= j < n implies #[trigger] sect_clauses(d, r + s)[j] == sect_clauses(b, s)[j] by {
                assert(spec_fat_clause(d, r + s + 4 + 24 * j) == spec_fat_clause(b, s + 4 + 24 * j));
            }
        }
    } else {
        assert forall|j: int| 0 <= j < n implies #[trigger] spec_small_clause(d, r + s + 4 + 12 * j) == spec_small_clause(b, s + 4 + 12 * j) by {
            assert(s + 4 + 12 * j + 12 <= s + 4 + n * 12) by (nonlinear_arith)
                requires
                    0 <= j < n,
            ;
            let q = s + 4 + 12 * j;
            lemma_u32_shift(d, r, b, q);
            lemma_u32_shift(d, r, b, q + 4);
            lemma_u32_shift(d, r, b, q + 8);
            lemma_u16_shift(d, r, b, q + 2);
            lemma_u16_shift(d, r, b, q + 5);
            assert(d[r + (q + 4)] == b[q + 4]);
            assert(d[r + (q + 7)] == b[q + 7]);
        }
        assert(sect_clauses(d, r + s) =~= sect_clauses(b, s)) by {
            assert forall|j: int| 0 <= j < n implies #[trigger] sect_clauses(d, r + s)[j] == sect_clauses(b, s)[j] by {
                assert(spec_small_clause(d, r + s + 4 + 12 * j) == spec_small_clause(b, s + 4 + 12 * j));
            }
        }
    }
}

/// An exception-section chain that `b` reads in full reads the same inside `d`.
proof fn lemma_chain_shift(d: Seq<u8>, r: int, b: Seq<u8>, s: int)
    requires
        embedded_at(d, r, b),
        r % 4 == 0,
        eh_chain_ok(b, s),
    ensures
        eh_chain_clauses(d, r + s) == eh_chain_clauses(b, s),
    decreases b.len() - s,
{
    lemma_sect_shift(d, r, b, s);
    if sect_has_more(b, s) {
        let nx = next_sect(b, s);
        lemma_align4_shift(r, s + sect_data_size(b, s));
        assert(next_sect(d, r + s) == r + nx);
        lemma_chain_shift(d, r, b, nx);
    }
}

/// A body that `b` holds at its start, and reads in full, parses the same
/// inside `d` at a multiple of 4.
pub proof fn lemma_parse_shift(d: Seq<u8>, r: int, b: Seq<u8>)
    requires
        embedded_at(d, r, b),
        r % 4 == 0,
        body_reads_ok(b, 0),
    ensures
        spec_parse_body(d, r) == spec_parse_body(b, 0),
{
    assert(d[r + 0] == b[0]);
    if is_tiny(b, 0) {
        assert(d.subrange(r + 1, r + 1 + d[r] / 4) =~= b.subrange(1, 1 + b[0] / 4)) by {
            assert forall|k: int| 0 <= k < b[0] / 4 implies #[trigger] d.subrange(r + 1, r + 1 + d[r] / 4)[k] == b.subrange(1, 1 + b[0] / 4)[k] by {
                assert(d[r + (1 + k)] == b[1 + k]);
            }
        }
    } else if is_fat(b, 0) {
        lemma_u32_shift(d, r, b, 0);
        lemma_u32_shift(d, r, b, 4);
        lemma_u32_shift(d, r, b, 8);
        lemma_u16_shift(d, r, b, 2);
        let hl = fat_header_len(b, 0);
        let cs = fat_code_size(b, 0);
        assert(fat_header_len(d, r) == hl);
        assert(fat_code_size(d, r) == cs);
        assert(d.subrange(r + hl, r + hl + cs) =~= b.subrange(hl, hl + cs)) by {
            assert forall|k: int| 0 <= k < cs implies #[trigger] d.subrange(r + hl, r + hl + cs)[k] == b.subrange(hl, hl + cs)[k] by {
                assert(d[r + (hl + k)] == b[hl + k]);
            }
        }
        if fat_more_sects(b, 0) {
            lemma_align4_shift(r, hl + cs);
            assert(first_sect(d, r) == r + first_sect(b, 0));
            lemma_chain_shift(d, r, b, first_sect(b, 0));
        }
    }
}

} // verus!
