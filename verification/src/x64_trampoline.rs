//! Position-independent x64 trampoline for the SMBIOS patch.
//!
//! The trampoline calls the original `GetSystemFirmwareTable` through its IAT
//! slot, then, for an `RSMB` request that succeeded, overwrites strings of the
//! returned buffer at precomputed offsets. Each replacement first checks every
//! expected byte and skips the whole entry on the first mismatch.
//!
//! The IAT slot is read with `lea rax,[rip+disp32] ; mov rax,[rax]`. The
//! `disp32` is emitted for a trampoline at RVA 0; its byte offset is returned so
//! that the caller corrects it in place once the section's RVA is known.

use vstd::prelude::*;
use crate::infra::le::{le32, u32_le_bytes};

verus! {

/// One same-length replacement: at `offset` in the firmware buffer, the bytes
/// `verify` are expected, and `verify.len()` bytes of `replace` are written
/// over them (a shorter `replace` is completed with NULs).
pub struct ReplaceEntry {
    pub offset: u32,
    pub verify: Vec<u8>,
    pub replace: Vec<u8>,
}

/// The machine code, and where in it the IAT displacement lies.
pub struct TrampolineCode {
    /// The complete code, to be written into a section as it is.
    pub bytes: Vec<u8>,
    /// The offset in `bytes` of the little-endian `disp32` that reaches the
    /// IAT slot. Once the section's RVA is known, the caller stores there
    /// `iat_rva - (trampoline_rva + iat_disp_byte_offset + 4)`.
    pub iat_disp_byte_offset: usize,
}

/// Offset of the IAT displacement: right after the 20-byte prologue and the
/// `48 8D 05` opcode of `lea rax,[rip+disp32]`.
pub const IAT_DISP_OFFSET: usize = 23;

/// Size of everything before the first replacement block.
pub const HEADER_LEN: usize = 72;

/// Size of the epilogue.
pub const EPILOGUE_LEN: usize = 15;

/// `push rbx/rsi/rdi/r12/r13 ; sub rsp,0x28 ; mov rbx,rcx ; mov rsi,rdx ; mov rdi,r8`.
pub open spec fn prologue() -> Seq<u8> {
    seq![
        0x53u8, 0x56, 0x57, 0x41, 0x54, 0x41, 0x55,
        0x48, 0x83, 0xEC, 0x28,
        0x48, 0x89, 0xCB,
        0x48, 0x89, 0xD6,
        0x4C, 0x89, 0xC7,
    ]
}

/// `lea rax,[rip+disp] ; mov rax,[rax] ; sub rsp,0x20 ; call rax ; add rsp,0x20 ; mov r12,rax`,
/// with the displacement that reaches `iat_rva` from a trampoline at RVA 0.
pub open spec fn original_call(iat_rva: u32) -> Seq<u8> {
    seq![0x48u8, 0x8D, 0x05] + le32(iat_rva.wrapping_sub(27) as int) + seq![
        0x48u8, 0x8B, 0x00,
        0x48, 0x83, 0xEC, 0x20,
        0xFF, 0xD0,
        0x48, 0x83, 0xC4, 0x20,
        0x49, 0x89, 0xC4,
    ]
}

/// A `disp32` from the instruction end `next` to `target`, as the low 32 bits.
pub open spec fn disp32(next: int, target: int) -> Seq<u8> {
    le32(((target - next) as u32) as int)
}

/// `jne rel32` ending at `next`, to `target`.
pub open spec fn jne_to(next: int, target: int) -> Seq<u8> {
    seq![0x0Fu8, 0x85] + disp32(next, target)
}

/// The guard: on a NULL result, a provider other than `'RSMB'` or a table id
/// other than 0, jump to `done`.
pub open spec fn guard(done: int) -> Seq<u8> {
    seq![0x48u8, 0x85, 0xC0] + seq![0x0Fu8, 0x84] + disp32(52, done)
        + seq![0x81u8, 0xFB, 0x42, 0x4D, 0x53, 0x52] + jne_to(64, done)
        + seq![0x85u8, 0xF6] + jne_to(72, done)
}

/// `mov rax,r12 ; add rsp,0x28 ; pop r13/r12/rdi/rsi/rbx ; ret`.
pub open spec fn epilogue() -> Seq<u8> {
    seq![0x4Cu8, 0x89, 0xE0, 0x48, 0x83, 0xC4, 0x28, 0x41, 0x5D, 0x41, 0x5C, 0x5F, 0x5E, 0x5B, 0xC3]
}

/// `cmp byte [rcx+i], b`, with an 8-bit displacement below 128.
pub open spec fn check_insn(i: int, b: u8) -> Seq<u8> {
    if i < 128 {
        seq![0x80u8, 0x79, i as u8, b]
    } else {
        seq![0x80u8, 0xB9] + le32(i) + seq![b]
    }
}

/// `mov byte [rcx+i], b`, with an 8-bit displacement below 128.
pub open spec fn mov_insn(i: int, b: u8) -> Seq<u8> {
    if i < 128 {
        seq![0xC6u8, 0x41, i as u8, b]
    } else {
        seq![0xC6u8, 0x81] + le32(i) + seq![b]
    }
}

/// Size of the checks of `n` bytes (compare plus `jne rel32` each).
pub open spec fn checks_len(n: int) -> int {
    if n <= 128 { 10 * n } else { 1280 + 13 * (n - 128) }
}

/// Size of the stores of `n` bytes.
pub open spec fn stores_len(n: int) -> int {
    if n <= 128 { 4 * n } else { 512 + 7 * (n - 128) }
}

/// The checks of the first `n` bytes of `v`, placed at `pos`, each jumping to
/// `fail` on a mismatch.
pub open spec fn checks(v: Seq<u8>, n: int, pos: int, fail: int) -> Seq<u8>
    decreases n,
{
    if n <= 0 {
        Seq::empty()
    } else {
        checks(v, n - 1, pos, fail) + check_insn(n - 1, v[n - 1]) + jne_to(pos + checks_len(n), fail)
    }
}

/// Byte `i` of a replacement, NUL past its end.
pub open spec fn replacement_byte(r: Seq<u8>, i: int) -> u8 {
    if i < r.len() { r[i] } else { 0 }
}

/// The stores of the first `n` bytes of `r`.
pub open spec fn stores(r: Seq<u8>, n: int) -> Seq<u8>
    decreases n,
{
    if n <= 0 {
        Seq::empty()
    } else {
        stores(r, n - 1) + mov_insn(n - 1, replacement_byte(r, n - 1))
    }
}

/// Size of the block of one entry.
pub open spec fn block_len(e: ReplaceEntry) -> int {
    7 + checks_len(e.verify@.len() as int) + stores_len(e.verify@.len() as int)
}

/// The block of one entry placed at `pos`: `lea rcx,[rdi+offset]`, the checks
/// (a mismatch skips to the block's end), then the stores.
pub open spec fn block(e: ReplaceEntry, pos: int) -> Seq<u8> {
    let n = e.verify@.len() as int;
    seq![0x48u8, 0x8D, 0x8F] + le32(e.offset as int) + checks(e.verify@, n, pos + 7, pos + block_len(e))
        + stores(e.replace@, n)
}

/// Size of the blocks of `es`.
pub open spec fn blocks_len(es: Seq<ReplaceEntry>) -> int
    decreases es.len(),
{
    if es.len() == 0 {
        0
    } else {
        blocks_len(es.drop_last()) + block_len(es.last())
    }
}

/// The blocks of `es`, in order, placed from `pos`.
pub open spec fn blocks(es: Seq<ReplaceEntry>, pos: int) -> Seq<u8>
    decreases es.len(),
{
    if es.len() == 0 {
        Seq::empty()
    } else {
        blocks(es.drop_last(), pos) + block(es.last(), pos + blocks_len(es.drop_last()))
    }
}

/// Size of the whole trampoline.
pub open spec fn trampoline_len(es: Seq<ReplaceEntry>) -> int {
    HEADER_LEN + blocks_len(es) + EPILOGUE_LEN
}

/// The whole trampoline: the epilogue starts at `done`, where the guard and
/// the last block lead.
pub open spec fn spec_trampoline(iat_rva: u32, es: Seq<ReplaceEntry>) -> Seq<u8> {
    let done = HEADER_LEN + blocks_len(es);
    prologue() + original_call(iat_rva) + guard(done) + blocks(es, HEADER_LEN as int) + epilogue()
}

/// What `build_trampoline` needs of its entries: at least one, each checking
/// fewer than 4 GiB of bytes.
pub open spec fn entries_ok(es: Seq<ReplaceEntry>) -> bool {
    &&& es.len() > 0
    &&& forall|k: int| 0 <= k < es.len() ==> #[trigger] es[k].verify@.len() <= u32::MAX
}

proof fn lemma_checks_len(v: Seq<u8>, n: int, pos: int, fail: int)
    requires
        n >= 0,
    ensures
        checks(v, n, pos, fail).len() == checks_len(n),
    decreases n,
{
    if n > 0 {
        lemma_checks_len(v, n - 1, pos, fail);
    }
}

proof fn lemma_stores_len(r: Seq<u8>, n: int)
    requires
        n >= 0,
    ensures
        stores(r, n).len() == stores_len(n),
    decreases n,
{
    if n > 0 {
        lemma_stores_len(r, n - 1);
    }
}

proof fn lemma_block_len(e: ReplaceEntry, pos: int)
    ensures
        block(e, pos).len() == block_len(e),
{
    lemma_checks_len(e.verify@, e.verify@.len() as int, pos + 7, pos + block_len(e));
    lemma_stores_len(e.replace@, e.verify@.len() as int);
}

proof fn lemma_blocks_len(es: Seq<ReplaceEntry>, pos: int)
    ensures
        blocks(es, pos).len() == blocks_len(es),
        blocks_len(es) >= 0,
    decreases es.len(),
{
    if es.len() > 0 {
        lemma_blocks_len(es.drop_last(), pos);
        lemma_block_len(es.last(), pos + blocks_len(es.drop_last()));
    }
}

/// The blocks of a prefix are no longer than those of the whole.
proof fn lemma_blocks_len_prefix(es: Seq<ReplaceEntry>, k: int)
    requires
        0 <= k <= es.len(),
    ensures
        0 <= blocks_len(es.take(k)) <= blocks_len(es),
    decreases es.len() - k,
{
    if k < es.len() {
        lemma_blocks_len_prefix(es, k + 1);
        assert(es.take(k + 1).drop_last() =~= es.take(k));
        lemma_blocks_len(es.take(k), 0);
    } else {
        assert(es.take(k) =~= es);
        lemma_blocks_len(es, 0);
    }
}

/// Appends `bytes`.
fn emit(code: &mut Vec<u8>, bytes: &[u8])
    ensures
        final(code)@ == old(code)@ + bytes@,
{
    let ghost start = code@;
    let mut i: usize = 0;
    while i < bytes.len()
        invariant
            i <= bytes@.len(),
            code@ == start + bytes@.take(i as int),
        decreases bytes@.len() - i,
    {
        code.push(bytes[i]);
        i = i + 1;
        assert(code@ =~= start + bytes@.take(i as int));
    }
    assert(bytes@.take(i as int) =~= bytes@);
}

/// Appends the little-endian bytes of `v`.
fn emit_le32(code: &mut Vec<u8>, v: u32)
    ensures
        final(code)@ == old(code)@ + le32(v as int),
{
    let b = u32_le_bytes(v);
    emit(code, b.as_slice());
}

/// Appends `jne rel32` whose end lies at `code.len() + 6`, to `target`.
fn emit_jcc(code: &mut Vec<u8>, opcode: u8, target: usize)
    requires
        old(code)@.len() + 6 <= target,
    ensures
        final(code)@ == old(code)@ + seq![0x0Fu8, opcode] + disp32(old(code)@.len() + 6int, target as int),
{
    let next = code.len() + 6;
    let d = target - next;
    emit(code, &[0x0F, opcode]);
    emit_le32(code, d as u32);
}

/// Appends the check of byte `i` of an entry.
fn emit_check(code: &mut Vec<u8>, i: usize, b: u8)
    requires
        i <= u32::MAX,
    ensures
        final(code)@ == old(code)@ + check_insn(i as int, b),
{
    if i < 128 {
        emit(code, &[0x80, 0x79, i as u8, b]);
    } else {
        emit(code, &[0x80, 0xB9]);
        emit_le32(code, i as u32);
        emit(code, &[b]);
        assert(code@ =~= old(code)@ + check_insn(i as int, b));
    }
}

/// Appends the store of byte `i` of an entry.
fn emit_mov(code: &mut Vec<u8>, i: usize, b: u8)
    requires
        i <= u32::MAX,
    ensures
        final(code)@ == old(code)@ + mov_insn(i as int, b),
{
    if i < 128 {
        emit(code, &[0xC6, 0x41, i as u8, b]);
    } else {
        emit(code, &[0xC6, 0x81]);
        emit_le32(code, i as u32);
        emit(code, &[b]);
        assert(code@ =~= old(code)@ + mov_insn(i as int, b));
    }
}

/// Size of the block of an entry with `n` expected bytes.
fn entry_block_len(n: usize) -> (r: usize)
    requires
        7 + checks_len(n as int) + stores_len(n as int) <= usize::MAX,
    ensures
        r == 7 + checks_len(n as int) + stores_len(n as int),
{
    if n <= 128 {
        7 + 10 * n + 4 * n
    } else {
        7 + 1280 + 13 * (n - 128) + 512 + 7 * (n - 128)
    }
}

/// Appends the block of entry `e`.
fn emit_block(code: &mut Vec<u8>, e: &ReplaceEntry)
    requires
        e.verify@.len() <= u32::MAX,
        old(code)@.len() + block_len(*e) <= usize::MAX,
    ensures
        final(code)@ == old(code)@ + block(*e, old(code)@.len() as int),
{
    let ghost base = code@;
    let start = code.len();
    let n = e.verify.len();
    let end = start + entry_block_len(n);
    emit(code, &[0x48, 0x8D, 0x8F]);
    emit_le32(code, e.offset);
    let ghost head = code@;
    let mut i: usize = 0;
    while i < n
        invariant
            n == e.verify@.len(),
            n <= u32::MAX,
            i <= n,
            end == start + block_len(*e),
            end <= usize::MAX,
            start == base.len(),
            code@ == head + checks(e.verify@, i as int, start + 7, end as int),
            code@.len() == start + 7 + checks_len(i as int),
        decreases n - i,
    {
        emit_check(code, i, e.verify[i]);
        emit_jcc(code, 0x85, end);
        i = i + 1;
        assert(code@ =~= head + checks(e.verify@, i as int, start + 7, end as int));
    }
    let ghost checked = code@;
    let mut j: usize = 0;
    while j < n
        invariant
            n == e.verify@.len(),
            n <= u32::MAX,
            j <= n,
            code@ == checked + stores(e.replace@, j as int),
        decreases n - j,
    {
        let b = if j < e.replace.len() { e.replace[j] } else { 0 };
        emit_mov(code, j, b);
        j = j + 1;
        assert(code@ =~= checked + stores(e.replace@, j as int));
    }
    assert(code@ =~= base + block(*e, start as int));
}

/// Builds the trampoline for the IAT slot at `iat_rva` and the replacement
/// `entries`, applied in order.
pub fn build_trampoline(iat_rva: u32, entries: &[ReplaceEntry]) -> (tc: TrampolineCode)
    requires
        entries_ok(entries@),
        trampoline_len(entries@) <= usize::MAX,
    ensures
        tc.bytes@ == spec_trampoline(iat_rva, entries@),
        tc.bytes@.len() == trampoline_len(entries@),
        tc.iat_disp_byte_offset == IAT_DISP_OFFSET,
{
    let ghost es = entries@;
    // Where the epilogue will start.
    let mut done: usize = HEADER_LEN;
    let mut k: usize = 0;
    while k < entries.len()
        invariant
            es == entries@,
            entries_ok(es),
            trampoline_len(es) <= usize::MAX,
            k <= es.len(),
            done == HEADER_LEN + blocks_len(es.take(k as int)),
        decreases es.len() - k,
    {
        proof {
            lemma_blocks_len_prefix(es, k + 1);
            assert(es.take(k + 1).drop_last() =~= es.take(k as int));
        }
        let b = entry_block_len(entries[k].verify.len());
        done = done + b;
        k = k + 1;
    }
    assert(es.take(es.len() as int) =~= es);
    proof {
        lemma_blocks_len(es, 0);
    }

    let mut code: Vec<u8> = Vec::new();
    emit(&mut code, &[0x53, 0x56, 0x57, 0x41, 0x54, 0x41, 0x55]);
    emit(&mut code, &[0x48, 0x83, 0xEC, 0x28]);
    emit(&mut code, &[0x48, 0x89, 0xCB]);
    emit(&mut code, &[0x48, 0x89, 0xD6]);
    emit(&mut code, &[0x4C, 0x89, 0xC7]);
    assert(code@ =~= prologue());

    emit(&mut code, &[0x48, 0x8D, 0x05]);
    let iat_disp_offset = code.len();
    emit_le32(&mut code, iat_rva.wrapping_sub(27));
    emit(&mut code, &[0x48, 0x8B, 0x00]);
    emit(&mut code, &[0x48, 0x83, 0xEC, 0x20]);
    emit(&mut code, &[0xFF, 0xD0]);
    emit(&mut code, &[0x48, 0x83, 0xC4, 0x20]);
    emit(&mut code, &[0x49, 0x89, 0xC4]);
    assert(code@ =~= prologue() + original_call(iat_rva));

    emit(&mut code, &[0x48, 0x85, 0xC0]);
    emit_jcc(&mut code, 0x84, done);
    emit(&mut code, &[0x81, 0xFB, 0x42, 0x4D, 0x53, 0x52]);
    emit_jcc(&mut code, 0x85, done);
    emit(&mut code, &[0x85, 0xF6]);
    emit_jcc(&mut code, 0x85, done);
    let ghost header = prologue() + original_call(iat_rva) + guard(done as int);
    assert(code@ =~= header);

    let mut k: usize = 0;
    while k < entries.len()
        invariant
            es == entries@,
            entries_ok(es),
            trampoline_len(es) <= usize::MAX,
            k <= es.len(),
            code@ == header + blocks(es.take(k as int), HEADER_LEN as int),
            code@.len() == HEADER_LEN + blocks_len(es.take(k as int)),
        decreases es.len() - k,
    {
        proof {
            lemma_blocks_len_prefix(es, k + 1);
            assert(es.take(k + 1).drop_last() =~= es.take(k as int));
            assert(es.take(k + 1).last() == es[k as int]);
            assert(entries_ok(es));
            assert(es[k as int].verify@.len() <= u32::MAX);
        }
        emit_block(&mut code, &entries[k]);
        proof {
            lemma_block_len(es[k as int], HEADER_LEN + blocks_len(es.take(k as int)));
        }
        k = k + 1;
        assert(code@ =~= header + blocks(es.take(k as int), HEADER_LEN as int));
    }

    emit(&mut code, &[0x4C, 0x89, 0xE0]);
    emit(&mut code, &[0x48, 0x83, 0xC4, 0x28]);
    emit(&mut code, &[0x41, 0x5D, 0x41, 0x5C, 0x5F, 0x5E, 0x5B]);
    emit(&mut code, &[0xC3]);
    assert(code@ =~= spec_trampoline(iat_rva, es));
    TrampolineCode { bytes: code, iat_disp_byte_offset: iat_disp_offset }
}

/// Layout of every trampoline: it opens with `push rbx`, the IAT displacement
/// at `IAT_DISP_OFFSET` reaches `iat_rva` from RVA 0, it closes with the
/// epilogue, and the three guard jumps land on the first byte of the epilogue.
pub proof fn lemma_trampoline_layout(iat_rva: u32, es: Seq<ReplaceEntry>)
    requires
        entries_ok(es),
    ensures
        ({
            let t = spec_trampoline(iat_rva, es);
            let done = t.len() - EPILOGUE_LEN;
            &&& t.len() == trampoline_len(es)
            &&& t[0] == 0x53
            &&& t.subrange(IAT_DISP_OFFSET as int, IAT_DISP_OFFSET + 4) == le32(iat_rva.wrapping_sub(27) as int)
            &&& t.subrange(done, t.len() as int) == epilogue()
            &&& t.subrange(48, 52) == disp32(52, done)
            &&& t.subrange(60, 64) == disp32(64, done)
            &&& t.subrange(68, 72) == disp32(72, done)
        }),
{
    let t = spec_trampoline(iat_rva, es);
    let done = HEADER_LEN + blocks_len(es);
    lemma_blocks_len(es, HEADER_LEN as int);
    let head = prologue() + original_call(iat_rva) + guard(done);
    assert(head.len() == HEADER_LEN);
    assert(t.subrange(0, HEADER_LEN as int) =~= head);
    assert(t.subrange(done, t.len() as int) =~= epilogue());
    assert(t.subrange(IAT_DISP_OFFSET as int, IAT_DISP_OFFSET + 4) =~= head.subrange(23, 27));
    assert(head.subrange(23, 27) =~= le32(iat_rva.wrapping_sub(27) as int));
    assert(t.subrange(48, 52) =~= head.subrange(48, 52));
    assert(head.subrange(48, 52) =~= disp32(52, done));
    assert(t.subrange(60, 64) =~= head.subrange(60, 64));
    assert(head.subrange(60, 64) =~= disp32(64, done));
    assert(t.subrange(68, 72) =~= head.subrange(68, 72));
    assert(head.subrange(68, 72) =~= disp32(72, done));
    assert(t[0] == head[0]);
}

} // verus!
