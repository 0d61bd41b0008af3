//! Installers of Xiaomi PC Manager and Xiaomi Interconnect (PcContinuity):
//! which product an installer belongs to, a safe local name for a download,
//! and where in an installer image the model and Windows-version gates start.

use vstd::prelude::*;
use vstd::string::StrSliceExecFns;
use vstd::string::StringExecFns;
use vstd::string::StringSliceAdditionalSpecFns;
use crate::infra::bytes::{copy_range, find_bytes, occurs_at, spec_find};
use crate::infra::le::{rd_u16, rd_u32, spec_u16, spec_u32};
use crate::install::chars_lt;
use crate::infra::text::{
    ascii_lowercase, chars_of, ends_with, lemma_find_chars_bounds, ends_with_chars, find_chars, find_chars_from, lower_chars, starts_with,
    starts_with_chars,
};

verus! {

/// The product an installer belongs to.
///
/// - `XiaomiPcManager`: the full Xiaomi PC Manager, which every patch supports.
/// - `PcContinuity`: Xiaomi Interconnect, where only the region patch applies.
#[derive(Debug, Clone, Copy, PartialEq, Eq)]
pub enum InstallerKind {
    XiaomiPcManager,
    PcContinuity,
}

/// The user-facing product name.
pub open spec fn spec_label(k: InstallerKind) -> Seq<char> {
    match k {
        InstallerKind::XiaomiPcManager => "小米电脑管家 (XiaomiPCManager)"@,
        InstallerKind::PcContinuity => "小米互联 / 互联互通 (PcContinuity)"@,
    }
}

impl InstallerKind {
    /// Whether the device proxy `msimg32.dll` is deployed before the installer
    /// starts. Both installers check the device model (Interconnect shows
    /// "device not supported"), so the proxy is always deployed.
    pub fn deploys_device_proxy(self) -> (r: bool)
        ensures
            r,
    {
        true
    }

    /// The user-facing product name.
    pub fn label(self) -> (r: &'static str)
        ensures
            r@ == spec_label(self),
    {
        match self {
            InstallerKind::XiaomiPcManager => "小米电脑管家 (XiaomiPCManager)",
            InstallerKind::PcContinuity => "小米互联 / 互联互通 (PcContinuity)",
        }
    }
}

/// The Chinese product marker in Interconnect installer names.
pub const PC_CONTINUITY_MARKER: &'static str = "小米互联";

/// The file extension of installers, lower case.
pub const EXE_SUFFIX: &'static str = ".exe";

/// The infix of PC Manager installer names, lower case.
pub const MANAGER_INFIX: &'static str = "_xiaomipcmanager_";

/// The product of an installer file name, if it is an installer:
/// - any name that ends with `.exe` (in any case) and holds `小米互联` is an
///   Interconnect installer;
/// - else a name whose lower-case stem (without `.exe`) splits at its first
///   `_xiaomipcmanager_` into a non-empty prefix and a non-empty suffix is a
///   PC Manager installer.
pub open spec fn spec_classify(name: Seq<char>) -> Option<InstallerKind> {
    let lower = lower_chars(name);
    if !ends_with_chars(lower, EXE_SUFFIX@) {
        None
    } else if find_chars_from(name, PC_CONTINUITY_MARKER@, 0) is Some {
        Some(InstallerKind::PcContinuity)
    } else {
        let stem = lower.subrange(0, lower.len() - EXE_SUFFIX@.len());
        match find_chars_from(stem, MANAGER_INFIX@, 0) {
            Some(i) => if i > 0 && i + MANAGER_INFIX@.len() < stem.len() {
                Some(InstallerKind::XiaomiPcManager)
            } else {
                None
            },
            None => None,
        }
    }
}

/// The product of an installer by its file name; non-installers give `None`.
pub fn classify_installer_filename(name: &str) -> (r: Option<InstallerKind>)
    ensures
        r == spec_classify(name@),
{
    let chars = chars_of(name);
    let lower = ascii_lowercase(name);
    let exe = chars_of(EXE_SUFFIX);
    if !ends_with(&lower, &exe) {
        return None;
    }
    let marker = chars_of(PC_CONTINUITY_MARKER);
    if find_chars(&chars, &marker).is_some() {
        return Some(InstallerKind::PcContinuity);
    }
    let stem_len = lower.len() - exe.len();
    let mut stem: Vec<char> = Vec::new();
    let mut i: usize = 0;
    while i < stem_len
        invariant
            stem_len <= lower@.len(),
            i <= stem_len,
            stem@ =~= lower@.subrange(0, i as int),
        decreases stem_len - i,
    {
        stem.push(lower[i]);
        i = i + 1;
    }
    let infix = chars_of(MANAGER_INFIX);
    let found = find_chars(&stem, &infix);
    proof {
        lemma_find_chars_bounds(stem@, infix@, 0);
    }
    match found {
        Some(at) => {
            if at > 0 && at + infix.len() < stem.len() {
                Some(InstallerKind::XiaomiPcManager)
            } else {
                None
            }
        },
        None => None,
    }
}

/// The product of an installer whose file name is `file_name`; a path with no
/// usable file name, or a name that is no installer, counts as PC Manager
/// (the proxy is deployed either way).
pub open spec fn spec_classify_name(file_name: Option<Seq<char>>) -> InstallerKind {
    match file_name {
        Some(n) => match spec_classify(n) {
            Some(k) => k,
            None => InstallerKind::XiaomiPcManager,
        },
        None => InstallerKind::XiaomiPcManager,
    }
}

/// The product for a file name already taken from a path.
pub fn classify_installer_name(file_name: Option<&str>) -> (k: InstallerKind)
    ensures
        k == spec_classify_name(match file_name {
            Some(n) => Some(n@),
            None => None,
        }),
{
    match file_name {
        Some(n) => match classify_installer_filename(n) {
            Some(k) => k,
            None => InstallerKind::XiaomiPcManager,
        },
        None => InstallerKind::XiaomiPcManager,
    }
}

/// A single plain path component: non-empty, not `.` or `..`, and free of
/// separators and drive colons, so every platform takes it as a file name.
pub open spec fn plain_component(s: Seq<char>) -> bool {
    &&& s.len() > 0
    &&& s != "."@
    &&& s != ".."@
    &&& forall|i: int| 0 <= i < s.len() ==> s[i] != '/' && s[i] != '\\' && s[i] != ':'
}

/// Calls `std::path::Path::file_name` on `path` and takes the name as a string.
///
/// Trusted: a plain component is its own file name. Which separators and
/// prefixes are recognised depends on the platform (a Windows verbatim path
/// splits at `\` only), so nothing more is stated.
#[verifier::external_body]
fn path_file_name(path: &str) -> (r: Option<String>)
    ensures
        plain_component(path@) ==> (r.is_some() && r.unwrap()@ == path@),
{
    match std::path::Path::new(path).file_name() {
        Some(n) => n.to_str().map(String::from),
        None => None,
    }
}

/// The product of the installer at `installer`, by its file name.
pub fn classify_installer(installer: &str) -> (k: InstallerKind)
    ensures
        plain_component(installer@) ==> k == spec_classify_name(Some(installer@)),
{
    match path_file_name(installer) {
        Some(n) => classify_installer_name(Some(n.as_str())),
        None => classify_installer_name(None),
    }
}

// ---------------------------------------------------------------- download name

/// Why an installer URL is refused.
#[derive(Debug, Clone, Copy, PartialEq, Eq)]
pub enum DownloadError {
    /// The URL is not `http://` or `https://`.
    NotHttp,
}

impl DownloadError {
    /// The text shown for the error.
    pub fn message(self) -> (r: &'static str)
        ensures
            r@ == "下载地址必须使用 http:// 或 https://"@,
    {
        "下载地址必须使用 http:// 或 https://"
    }
}

/// The name a download gets when the URL offers no safe one.
pub const DEFAULT_DOWNLOAD_NAME: &'static str = "XiaomiPCManagerInstaller.exe";

/// A character allowed in a download name: ASCII letter or digit, `.`, `_`, `-`.
pub open spec fn safe_name_char(c: char) -> bool {
    ('a' <= c <= 'z') || ('A' <= c <= 'Z') || ('0' <= c <= '9') || c == '.' || c == '_' || c == '-'
}

/// A file name safe to download to: it ends with `.exe` in any case and holds
/// only safe characters.
pub open spec fn safe_exe_name(n: Seq<char>) -> bool {
    ends_with_chars(lower_chars(n), EXE_SUFFIX@) && forall|i: int| 0 <= i < n.len() ==> safe_name_char(#[trigger] n[i])
}

/// The URL uses `http://` or `https://` (in any case).
pub open spec fn is_http_url(url: Seq<char>) -> bool {
    starts_with_chars(lower_chars(url), "https://"@) || starts_with_chars(lower_chars(url), "http://"@)
}

/// The index where the query or fragment starts: the first `?` or `#`, else the end.
pub open spec fn query_start(url: Seq<char>, i: int) -> int
    decreases url.len() - i,
{
    if i < 0 || i >= url.len() {
        url.len() as int
    } else if url[i] == '?' || url[i] == '#' {
        i
    } else {
        query_start(url, i + 1)
    }
}

/// The index just past the last `/` of `s[..end]`, or 0.
pub open spec fn after_last_slash(s: Seq<char>, end: int) -> int
    decreases end,
{
    if end <= 0 {
        0
    } else if s[end - 1] == '/' {
        end
    } else {
        after_last_slash(s, end - 1)
    }
}

/// The last path segment of the URL without its query and fragment.
pub open spec fn url_last_segment(url: Seq<char>) -> Seq<char> {
    let end = query_start(url, 0);
    url.subrange(after_last_slash(url, end), end)
}

/// The local name for a download whose file name is `file_name`.
pub open spec fn spec_safe_download_name(file_name: Option<Seq<char>>) -> Seq<char> {
    match file_name {
        Some(n) => if safe_exe_name(n) { n } else { DEFAULT_DOWNLOAD_NAME@ },
        None => DEFAULT_DOWNLOAD_NAME@,
    }
}

fn is_safe_name_char(c: char) -> (r: bool)
    ensures
        r == safe_name_char(c),
{
    ('a' <= c && c <= 'z') || ('A' <= c && c <= 'Z') || ('0' <= c && c <= '9') || c == '.' || c == '_' || c == '-'
}

/// Keeps `file_name` when it is a safe installer name, else the default name.
pub fn safe_download_name(file_name: Option<&str>) -> (r: String)
    ensures
        r@ == spec_safe_download_name(match file_name {
            Some(n) => Some(n@),
            None => None,
        }),
{
    match file_name {
        None => String::from_str(DEFAULT_DOWNLOAD_NAME),
        Some(n) => {
            let lower = ascii_lowercase(n);
            let exe = chars_of(EXE_SUFFIX);
            let chars = chars_of(n);
            let mut ok = ends_with(&lower, &exe);
            let mut i: usize = 0;
            while i < chars.len()
                invariant
                    chars@ == n@,
                    i <= chars@.len(),
                    ok == (ends_with_chars(lower_chars(n@), EXE_SUFFIX@) && forall|j: int|
                        0 <= j < i ==> safe_name_char(#[trigger] n@[j])),
                decreases chars@.len() - i,
            {
                ok = ok && is_safe_name_char(chars[i]);
                i = i + 1;
            }
            if ok {
                String::from_str(n)
            } else {
                String::from_str(DEFAULT_DOWNLOAD_NAME)
            }
        },
    }
}

/// A safe local installer file name for an HTTP(S) URL: the last path segment
/// (query and fragment dropped) when it is a safe `.exe` name, else
/// `XiaomiPCManagerInstaller.exe`. Any other scheme is refused.
pub fn download_filename(url: &str) -> (r: Result<String, DownloadError>)
    ensures
        r is Err <==> !is_http_url(url@),
        r matches Err(e) ==> e == DownloadError::NotHttp,
        r matches Ok(name) ==> {
            &&& plain_component(url_last_segment(url@)) ==> name@ == spec_safe_download_name(Some(url_last_segment(url@)))
            &&& (name@ == DEFAULT_DOWNLOAD_NAME@ || safe_exe_name(name@))
        },
{
    let lower = ascii_lowercase(url);
    let https = chars_of("https://");
    let http = chars_of("http://");
    if !starts_with(&lower, &https) && !starts_with(&lower, &http) {
        return Err(DownloadError::NotHttp);
    }
    let chars = chars_of(url);
    let mut end: usize = 0;
    while end < chars.len() && chars[end] != '?' && chars[end] != '#'
        invariant
            chars@ == url@,
            end <= chars@.len(),
            query_start(url@, 0) == query_start(url@, end as int),
        decreases chars@.len() - end,
    {
        end = end + 1;
    }
    let mut start = end;
    while start > 0 && chars[start - 1] != '/'
        invariant
            chars@ == url@,
            start <= end <= chars@.len(),
            end == query_start(url@, 0),
            after_last_slash(url@, end as int) == after_last_slash(url@, start as int),
        decreases start,
    {
        start = start - 1;
    }
    let candidate = url.substring_char(start, end);
    let picked = path_file_name(candidate);
    let name = match picked {
        Some(n) => safe_download_name(Some(n.as_str())),
        None => safe_download_name(None),
    };
    proof {
        reveal_strlit("XiaomiPCManagerInstaller.exe");
    }
    Ok(name)
}

// ---------------------------------------------------------------- gate bypass points

/// The entry patch that makes a gate function return true: `mov al,1 ; ret`.
pub const MATCH_BYPASS_PATCH: [u8; 3] = [0xB0, 0x01, 0xC3];

/// Why no gate entry was found in an installer.
#[derive(Debug, Clone, Copy, PartialEq, Eq)]
pub enum GateScanError {
    /// No `MZ` DOS header.
    NotPe,
    /// No `PE\0\0` signature where the DOS header points.
    BadPeHeader,
    /// The optional header is not PE32+.
    NotPe32Plus,
    /// The section table runs past the end of the file.
    SectionTableOutOfBounds,
    /// No `.text` section.
    NoTextSection,
    /// The `.text` section runs past the end of the file.
    TextOutOfBounds,
    /// A gate's signature string lies in no section.
    SignatureUnmapped,
    /// No `lea` in `.text` refers to a gate's signature string.
    NoCodeReference,
    /// No gate prologue before the reference.
    NoFunctionStart,
    /// The entry lies in no section.
    EntryUnmapped,
    /// None of the gates was found.
    GatesNotFound,
}

impl GateScanError {
    /// The text shown for the error.
    pub fn message(self) -> (r: &'static str)
        ensures
            r@ == (match self {
                GateScanError::NotPe => "不是有效的 PE 文件"@,
                GateScanError::BadPeHeader => "PE 头损坏"@,
                GateScanError::NotPe32Plus => "仅支持 PE32+（64 位）安装包"@,
                GateScanError::SectionTableOutOfBounds => "节表越界"@,
                GateScanError::NoTextSection => "PE 中无 .text 节"@,
                GateScanError::TextOutOfBounds => ".text 节超出文件范围"@,
                GateScanError::SignatureUnmapped => "签名不在任何节中"@,
                GateScanError::NoCodeReference => "未找到对门闸签名的代码引用"@,
                GateScanError::NoFunctionStart => "无法回溯到函数入口"@,
                GateScanError::EntryUnmapped => "函数入口 RVA 计算失败"@,
                GateScanError::GatesNotFound => "安装包中未找到 MatchProduct / WinVersionMatch"@,
            }),
    {
        match self {
            GateScanError::NotPe => "不是有效的 PE 文件",
            GateScanError::BadPeHeader => "PE 头损坏",
            GateScanError::NotPe32Plus => "仅支持 PE32+（64 位）安装包",
            GateScanError::SectionTableOutOfBounds => "节表越界",
            GateScanError::NoTextSection => "PE 中无 .text 节",
            GateScanError::TextOutOfBounds => ".text 节超出文件范围",
            GateScanError::SignatureUnmapped => "签名不在任何节中",
            GateScanError::NoCodeReference => "未找到对门闸签名的代码引用",
            GateScanError::NoFunctionStart => "无法回溯到函数入口",
            GateScanError::EntryUnmapped => "函数入口 RVA 计算失败",
            GateScanError::GatesNotFound => "安装包中未找到 MatchProduct / WinVersionMatch",
        }
    }
}

/// One section header as the scan reads it.
pub struct ScanSection {
    pub name: Vec<u8>,
    pub va: u32,
    pub vsize: u32,
    pub raw_pointer: u32,
    pub raw_size: u32,
}

/// A section header as the specification reads it.
pub struct SectionModel {
    pub name: Seq<u8>,
    pub va: u32,
    pub raw_pointer: u32,
    pub raw_size: u32,
}

impl ScanSection {
    pub open spec fn model(&self) -> SectionModel {
        SectionModel { name: self.name@, va: self.va, raw_pointer: self.raw_pointer, raw_size: self.raw_size }
    }
}

/// File offset of the `PE\0\0` signature.
pub open spec fn scan_pe_offset(pe: Seq<u8>) -> int {
    spec_u32(pe, 0x3C)
}

/// The section header at `o`.
pub open spec fn section_at(pe: Seq<u8>, o: int) -> SectionModel {
    SectionModel {
        name: pe.subrange(o, o + 8),
        va: spec_u32(pe, o + 12) as u32,
        raw_pointer: spec_u32(pe, o + 20) as u32,
        raw_size: spec_u32(pe, o + 16) as u32,
    }
}

/// The checks before the optional header is read pass.
pub open spec fn scan_headers_present(pe: Seq<u8>) -> bool {
    let e = scan_pe_offset(pe);
    &&& pe.len() >= 0x40
    &&& pe[0] == 0x4D && pe[1] == 0x5A
    &&& pe.len() >= e + 24
    &&& pe.subrange(e, e + 4) == seq![0x50u8, 0x45, 0, 0]
}

/// The reads of the header scan stay in the file: the optional-header magic,
/// and, for a PE32+ image, its image base.
pub open spec fn scan_reads_ok(pe: Seq<u8>) -> bool {
    let e = scan_pe_offset(pe);
    &&& pe.len() <= u32::MAX
    &&& scan_headers_present(pe) ==> {
        &&& e + 26 <= pe.len()
        &&& spec_u16(pe, e + 24) == 0x20B ==> e + 56 <= pe.len()
    }
}

/// The section headers of the image, or why they cannot be read.
pub open spec fn spec_scan_sections(pe: Seq<u8>) -> Result<Seq<SectionModel>, GateScanError> {
    let e = scan_pe_offset(pe);
    if pe.len() < 0x40 || !(pe[0] == 0x4D && pe[1] == 0x5A) {
        Err(GateScanError::NotPe)
    } else if pe.len() < e + 24 || pe.subrange(e, e + 4) != seq![0x50u8, 0x45, 0, 0] {
        Err(GateScanError::BadPeHeader)
    } else if spec_u16(pe, e + 24) != 0x20B {
        Err(GateScanError::NotPe32Plus)
    } else {
        let n = spec_u16(pe, e + 6);
        let sec_off = e + 24 + spec_u16(pe, e + 20);
        if n > 0 && sec_off + n * 40 > pe.len() {
            Err(GateScanError::SectionTableOutOfBounds)
        } else {
            Ok(Seq::new(n as nat, |i: int| section_at(pe, sec_off + i * 40)))
        }
    }
}

/// The first section whose name starts with `.text`, from index `k` on.
pub open spec fn text_section_from(secs: Seq<SectionModel>, k: int) -> Option<SectionModel>
    decreases secs.len() - k,
{
    if k < 0 || k >= secs.len() {
        None
    } else if secs[k].name.len() >= 5 && secs[k].name.subrange(0, 5) == seq![0x2Eu8, 0x74, 0x65, 0x78, 0x74] {
        Some(secs[k])
    } else {
        text_section_from(secs, k + 1)
    }
}

/// The RVA of file offset `off` through the first section (from `k`) that holds it.
pub open spec fn spec_off_to_rva(secs: Seq<SectionModel>, off: int, k: int) -> Option<u32>
    decreases secs.len() - k,
{
    if k < 0 || k >= secs.len() {
        None
    } else if secs[k].raw_pointer <= off < secs[k].raw_pointer + secs[k].raw_size {
        Some(((secs[k].va + (off - secs[k].raw_pointer)) % 0x1_0000_0000) as u32)
    } else {
        spec_off_to_rva(secs, off, k + 1)
    }
}

/// The signed 32-bit displacement at `o`.
pub open spec fn rel32(d: Seq<u8>, o: int) -> int {
    let u = spec_u32(d, o);
    if u >= 0x8000_0000 { u - 0x1_0000_0000 } else { u }
}

/// A `lea reg,[rip+disp32]` with a 64-bit or extended register starts at `i`.
pub open spec fn is_rip_lea(text: Seq<u8>, i: int) -> bool {
    (text[i] == 0x48 || text[i] == 0x4C) && text[i + 1] == 0x8D && (text[i + 2] & 0xC7u8) == 0x05u8
}

/// The first `lea` from `i` on, scanning as a decoder would (a `lea` that
/// misses is skipped whole), whose target is `target_rva`.
pub open spec fn find_lea_from(text: Seq<u8>, text_rva: int, target_rva: int, i: int) -> Option<int>
    decreases text.len() - i,
{
    if i < 0 || i + 7 > text.len() {
        None
    } else if is_rip_lea(text, i) {
        if text_rva + i + 7 + rel32(text, i + 3) == target_rva {
            Some(i)
        } else {
            find_lea_from(text, text_rva, target_rva, i + 7)
        }
    } else {
        find_lea_from(text, text_rva, target_rva, i + 1)
    }
}

/// `prologue` sits at `i` in `text`.
pub open spec fn prologue_at(text: Seq<u8>, prologue: Seq<u8>, i: int) -> bool {
    0 <= i && i + prologue.len() <= text.len() && text.subrange(i, i + prologue.len()) == prologue
}

/// The byte before `i` ends a previous function (`int3` padding or `ret`).
pub open spec fn after_function_end(text: Seq<u8>, i: int) -> bool {
    i > 0 && (text[i - 1] == 0xCC || text[i - 1] == 0xC3)
}

/// The highest `i` in `start..=hi` with the prologue right after a function end.
pub open spec fn padded_start(text: Seq<u8>, prologue: Seq<u8>, start: int, hi: int) -> Option<int>
    decreases hi - start + 1,
{
    if hi < start {
        None
    } else if prologue_at(text, prologue, hi) && after_function_end(text, hi) {
        Some(hi)
    } else {
        padded_start(text, prologue, start, hi - 1)
    }
}

/// The highest `i` in `start..=hi` with the prologue.
pub open spec fn plain_start(text: Seq<u8>, prologue: Seq<u8>, start: int, hi: int) -> Option<int>
    decreases hi - start + 1,
{
    if hi < start {
        None
    } else if prologue_at(text, prologue, hi) {
        Some(hi)
    } else {
        plain_start(text, prologue, start, hi - 1)
    }
}

/// The start of the function holding the `lea` at `lea_off`: within 0x400
/// bytes before it, the nearest prologue after a function end, else the
/// nearest prologue.
pub open spec fn spec_func_start(text: Seq<u8>, lea_off: int, prologue: Seq<u8>) -> Option<int> {
    let start = if lea_off >= 0x400 { lea_off - 0x400 } else { 0 };
    match padded_start(text, prologue, start, lea_off) {
        Some(i) => Some(i),
        None => plain_start(text, prologue, start, lea_off),
    }
}

/// The signature string of gate `k`.
pub open spec fn gate_signature(k: int) -> Seq<u8> {
    if k == 0 {
        GATE_SIG_PRELOAD.spec_bytes()
    } else if k == 1 {
        GATE_SIG_MATCH.spec_bytes()
    } else {
        GATE_SIG_WIN_VERSION.spec_bytes()
    }
}

/// The expected prologue of gate `k`.
pub open spec fn gate_prologue(k: int) -> Seq<u8> {
    if k < 2 { seq![0x40u8, 0x56, 0x48, 0x83, 0xEC, 0x40] } else { seq![0x4Cu8, 0x8B, 0xDC] }
}

/// The model-whitelist gates (`BI_MatchProductModelPreload`, `BI_MatchProductModel`)
/// and the Windows 11 gate (`CSetupHandler::WinVersionMatch`, which requires
/// build 22000 or later), by the strings that name them.
pub const GATE_SIG_PRELOAD: &'static str = "bool __cdecl BI_MatchProductModelPreload";
pub const GATE_SIG_MATCH: &'static str = "bool __cdecl BI_MatchProductModel(";
pub const GATE_SIG_WIN_VERSION: &'static str = "bool __cdecl CSetupHandler::WinVersionMatch(void)";

/// Scans gate `k` and adds its entry RVA to `acc` unless already there; a
/// gate whose signature string is absent leaves `acc` as it is.
#[verifier::opaque]
pub open spec fn gate_step(pe: Seq<u8>, secs: Seq<SectionModel>, text: SectionModel, k: int, acc: Seq<u32>) -> Result<Seq<u32>, GateScanError> {
    match spec_find(pe, gate_signature(k)) {
        None => Ok(acc),
        Some(sig_off) => match spec_off_to_rva(secs, sig_off, 0) {
            None => Err(GateScanError::SignatureUnmapped),
            Some(sig_rva) => {
                let code = pe.subrange(text.raw_pointer as int, text.raw_pointer + text.raw_size);
                match find_lea_from(code, text.va as int, sig_rva as int, 0) {
                    None => Err(GateScanError::NoCodeReference),
                    Some(lea) => match spec_func_start(code, lea, gate_prologue(k)) {
                        None => Err(GateScanError::NoFunctionStart),
                        Some(f) => match spec_off_to_rva(secs, text.raw_pointer + f, 0) {
                            None => Err(GateScanError::EntryUnmapped),
                            Some(rva) => Ok(if acc.contains(rva) { acc } else { acc.push(rva) }),
                        },
                    },
                }
            },
        },
    }
}

/// Scans gates `k..3` in order.
pub open spec fn scan_gates(pe: Seq<u8>, secs: Seq<SectionModel>, text: SectionModel, k: int, acc: Seq<u32>) -> Result<Seq<u32>, GateScanError>
    decreases 3 - k,
{
    if k < 0 || k >= 3 {
        Ok(acc)
    } else {
        match gate_step(pe, secs, text, k, acc) {
            Err(e) => Err(e),
            Ok(acc2) => scan_gates(pe, secs, text, k + 1, acc2),
        }
    }
}

/// The entry RVAs of the gates that an installer image holds, in gate order.
pub open spec fn spec_gate_rvas(pe: Seq<u8>) -> Result<Seq<u32>, GateScanError> {
    match spec_scan_sections(pe) {
        Err(e) => Err(e),
        Ok(secs) => match text_section_from(secs, 0) {
            None => Err(GateScanError::NoTextSection),
            Some(t) => if t.raw_pointer + t.raw_size > pe.len() {
                Err(GateScanError::TextOutOfBounds)
            } else {
                match scan_gates(pe, secs, t, 0, Seq::empty()) {
                    Err(e) => Err(e),
                    Ok(rvas) => if rvas.len() == 0 { Err(GateScanError::GatesNotFound) } else { Ok(rvas) },
                }
            },
        },
    }
}

/// Reads the section table of an installer image.
fn parse_pe_sections(pe: &[u8]) -> (r: Result<Vec<ScanSection>, GateScanError>)
    requires
        scan_reads_ok(pe@),
    ensures
        match r {
            Ok(v) => spec_scan_sections(pe@) == Ok::<Seq<SectionModel>, GateScanError>(v@.map_values(|s: ScanSection| s.model())),
            Err(e) => spec_scan_sections(pe@) == Err::<Seq<SectionModel>, GateScanError>(e),
        },
{
    assert(pe@.len() == pe.len());
    if pe.len() < 0x40 || pe[0] != 0x4D || pe[1] != 0x5A {
        return Err(GateScanError::NotPe);
    }
    let e = rd_u32(pe, 0x3C) as usize;
    if e > pe.len() || pe.len() - e < 24 || pe[e] != 0x50 || pe[e + 1] != 0x45 || pe[e + 2] != 0 || pe[e + 3] != 0 {
        proof {
            if pe@.len() >= e + 24 {
                assert(pe@.subrange(e as int, e + 4) != seq![0x50u8, 0x45, 0, 0]) by {
                    let sub = pe@.subrange(e as int, e + 4);
                    assert(sub[0] == pe@[e as int] && sub[1] == pe@[e + 1] && sub[2] == pe@[e + 2] && sub[3] == pe@[e + 3]);
                }
            }
        }
        return Err(GateScanError::BadPeHeader);
    }
    assert(pe@.subrange(e as int, e + 4) =~= seq![0x50u8, 0x45, 0, 0]);
    let coff = e + 4;
    let nsec = rd_u16(pe, coff + 2) as usize;
    let opt = coff + 20;
    let magic = rd_u16(pe, opt);
    if magic != 0x20B {
        return Err(GateScanError::NotPe32Plus);
    }
    let size_opt = rd_u16(pe, coff + 16) as usize;
    let sec_off: u64 = opt as u64 + size_opt as u64;
    if nsec > 0 && sec_off + nsec as u64 * 40 > pe.len() as u64 {
        return Err(GateScanError::SectionTableOutOfBounds);
    }
    let mut sections: Vec<ScanSection> = Vec::new();
    let mut i: usize = 0;
    while i < nsec
        invariant
            pe@.len() == pe.len(),
            pe@.len() <= u32::MAX,
            i <= nsec,
            nsec <= 0xFFFF,
            nsec > 0 ==> sec_off + nsec * 40 <= pe@.len(),
            sections@.len() == i,
            forall|j: int| 0 <= j < i ==> (#[trigger] sections@[j]).model() == section_at(pe@, sec_off + j * 40),
        decreases nsec - i,
    {
        let o = (sec_off + i as u64 * 40) as usize;
        let name = copy_range(pe, o, o + 8);
        let vsize = rd_u32(pe, o + 8);
        let va = rd_u32(pe, o + 12);
        let raw_size = rd_u32(pe, o + 16);
        let raw_pointer = rd_u32(pe, o + 20);
        sections.push(ScanSection { name, va, vsize, raw_pointer, raw_size });
        i = i + 1;
    }
    let ghost secs = Seq::new(nsec as nat, |j: int| section_at(pe@, sec_off + j * 40));
    assert(sections@.map_values(|s: ScanSection| s.model()) =~= secs);
    Ok(sections)
}

/// The RVA of file offset `off`.
fn off_to_rva(secs: &Vec<ScanSection>, off: u64) -> (r: Option<u32>)
    ensures
        r == spec_off_to_rva(secs@.map_values(|s: ScanSection| s.model()), off as int, 0),
{
    let ghost m = secs@.map_values(|s: ScanSection| s.model());
    let mut k: usize = 0;
    while k < secs.len()
        invariant
            m == secs@.map_values(|s: ScanSection| s.model()),
            k <= secs@.len(),
            spec_off_to_rva(m, off as int, 0) == spec_off_to_rva(m, off as int, k as int),
        decreases secs@.len() - k,
    {
        let s = &secs[k];
        assert(m[k as int] == s.model());
        if (s.raw_pointer as u64) <= off && off < s.raw_pointer as u64 + s.raw_size as u64 {
            let delta = off - s.raw_pointer as u64;
            return Some(((s.va as u64 + delta) % 0x1_0000_0000) as u32);
        }
        k = k + 1;
    }
    None
}

/// The first `lea` in `text` whose target is `target_rva`.
fn find_lea_to_rva(text: &[u8], text_rva: u32, target_rva: u32) -> (r: Option<usize>)
    requires
        text@.len() <= u32::MAX,
    ensures
        match r {
            Some(i) => find_lea_from(text@, text_rva as int, target_rva as int, 0) == Some(i as int),
            None => find_lea_from(text@, text_rva as int, target_rva as int, 0) is None,
        },
{
    assert(text@.len() == text.len());
    let mut i: usize = 0;
    while text.len() >= 7 && i <= text.len() - 7
        invariant
            text@.len() == text.len(),
            text@.len() <= u32::MAX,
            i <= text@.len(),
            find_lea_from(text@, text_rva as int, target_rva as int, 0)
                == find_lea_from(text@, text_rva as int, target_rva as int, i as int),
        decreases text@.len() - i,
    {
        let rex = text[i];
        if (rex == 0x48 || rex == 0x4C) && text[i + 1] == 0x8D && text[i + 2] & 0xC7 == 0x05 {
            let u = rd_u32(text, i + 3);
            let disp: i64 = if u >= 0x8000_0000 { u as i64 - 0x1_0000_0000 } else { u as i64 };
            let target = text_rva as i64 + i as i64 + 7 + disp;
            if target == target_rva as i64 {
                return Some(i);
            }
            i = i + 7;
        } else {
            i = i + 1;
        }
    }
    None
}

proof fn lemma_padded_start_ok(text: Seq<u8>, prologue: Seq<u8>, start: int, hi: int)
    ensures
        padded_start(text, prologue, start, hi) matches Some(i) ==> start <= i <= hi && prologue_at(text, prologue, i),
    decreases hi - start + 1,
{
    if hi >= start && !(prologue_at(text, prologue, hi) && after_function_end(text, hi)) {
        lemma_padded_start_ok(text, prologue, start, hi - 1);
    }
}

proof fn lemma_plain_start_ok(text: Seq<u8>, prologue: Seq<u8>, start: int, hi: int)
    ensures
        plain_start(text, prologue, start, hi) matches Some(i) ==> start <= i <= hi && prologue_at(text, prologue, i),
    decreases hi - start + 1,
{
    if hi >= start && !prologue_at(text, prologue, hi) {
        lemma_plain_start_ok(text, prologue, start, hi - 1);
    }
}

/// `prologue` sits at `i` in `text`.
fn has_prologue_at(text: &[u8], prologue: &[u8], i: usize) -> (r: bool)
    ensures
        r == prologue_at(text@, prologue@, i as int),
{
    if i > text.len() || prologue.len() > text.len() - i {
        return false;
    }
    let mut k: usize = 0;
    while k < prologue.len()
        invariant
            i + prologue@.len() <= text@.len(),
            text@.len() == text.len(),
            prologue@.len() == prologue.len(),
            k <= prologue@.len(),
            forall|j: int| 0 <= j < k ==> text@[i + j] == prologue@[j],
        decreases prologue@.len() - k,
    {
        if text[i + k] != prologue[k] {
            assert(text@.subrange(i as int, i + prologue@.len())[k as int] != prologue@[k as int]);
            return false;
        }
        k = k + 1;
    }
    assert(text@.subrange(i as int, i + prologue@.len()) =~= prologue@);
    true
}

/// The start found by scanning the window down from the `lea`.
fn scan_func_start(text: &[u8], lea_off: usize, prologue: &[u8]) -> (r: Option<usize>)
    ensures
        match r {
            Some(i) => spec_func_start(text@, lea_off as int, prologue@) == Some(i as int),
            None => spec_func_start(text@, lea_off as int, prologue@) is None,
        },
        r matches Some(i) ==> prologue_at(text@, prologue@, i as int),
{
    let start = if lea_off >= 0x400 { lea_off - 0x400 } else { 0 };
    proof {
        lemma_padded_start_ok(text@, prologue@, start as int, lea_off as int);
        lemma_plain_start_ok(text@, prologue@, start as int, lea_off as int);
    }
    let mut hi = lea_off;
    loop
        invariant
            start <= hi <= lea_off,
            start as int == (if lea_off >= 0x400 { lea_off - 0x400 } else { 0 }),
            padded_start(text@, prologue@, start as int, lea_off as int)
                == padded_start(text@, prologue@, start as int, hi as int),
        ensures
            padded_start(text@, prologue@, start as int, lea_off as int) is None,
        decreases hi - start,
    {
        if has_prologue_at(text, prologue, hi) && hi > 0 && (text[hi - 1] == 0xCC || text[hi - 1] == 0xC3) {
            return Some(hi);
        }
        if hi == start {
            assert(padded_start(text@, prologue@, start as int, hi - 1) is None);
            break;
        }
        hi = hi - 1;
    }
    let mut hi = lea_off;
    loop
        invariant
            start <= hi <= lea_off,
            start as int == (if lea_off >= 0x400 { lea_off - 0x400 } else { 0 }),
            padded_start(text@, prologue@, start as int, lea_off as int) is None,
            plain_start(text@, prologue@, start as int, lea_off as int)
                == plain_start(text@, prologue@, start as int, hi as int),
        decreases hi - start,
    {
        if has_prologue_at(text, prologue, hi) {
            return Some(hi);
        }
        if hi == start {
            assert(plain_start(text@, prologue@, start as int, hi - 1) is None);
            return None;
        }
        hi = hi - 1;
    }
}

/// The start of the function that holds the `lea` at `lea_off`.
fn find_func_start_before(text: &[u8], lea_off: usize, prologue: &[u8]) -> (r: Option<usize>)
    ensures
        match r {
            Some(i) => spec_func_start(text@, lea_off as int, prologue@) == Some(i as int),
            None => spec_func_start(text@, lea_off as int, prologue@) is None,
        },
        r matches Some(i) ==> prologue_at(text@, prologue@, i as int),
        ({
            let start = if lea_off >= 0x400 { lea_off - 0x400 } else { 0 };
            match r {
                Some(i) => {
                    &&& start <= i <= lea_off
                    &&& if exists|j: int| start <= j <= lea_off && #[trigger] entry_after_end(text@, prologue@, j) {
                        &&& after_function_end(text@, i as int)
                        &&& forall|j: int| i < j <= lea_off ==> !#[trigger] entry_after_end(text@, prologue@, j)
                    } else {
                        forall|j: int| i < j <= lea_off ==> !#[trigger] prologue_at(text@, prologue@, j)
                    }
                },
                None => forall|j: int| start <= j <= lea_off ==> !#[trigger] prologue_at(text@, prologue@, j),
            }
        }),
{
    let r = scan_func_start(text, lea_off, prologue);
    proof {
        lemma_func_start_is_nearest(text@, lea_off as int, prologue@);
    }
    r
}

/// Whether `v` holds `x`.
fn contains_u32(v: &Vec<u32>, x: u32) -> (r: bool)
    ensures
        r == v@.contains(x),
{
    let mut i: usize = 0;
    while i < v.len()
        invariant
            i <= v@.len(),
            forall|j: int| 0 <= j < i ==> v@[j] != x,
        decreases v@.len() - i,
    {
        if v[i] == x {
            assert(v@[i as int] == x);
            return true;
        }
        i = i + 1;
    }
    false
}

/// The index of the first `.text` section.
fn text_section_index(sections: &Vec<ScanSection>) -> (r: Option<usize>)
    ensures
        match r {
            Some(k) => k < sections@.len() && text_section_from(sections@.map_values(|s: ScanSection| s.model()), 0)
                == Some(sections@[k as int].model()),
            None => text_section_from(sections@.map_values(|s: ScanSection| s.model()), 0) is None,
        },
{
    let ghost m = sections@.map_values(|s: ScanSection| s.model());
    let mut k: usize = 0;
    while k < sections.len()
        invariant
            m == sections@.map_values(|s: ScanSection| s.model()),
            k <= sections@.len(),
            text_section_from(m, 0) == text_section_from(m, k as int),
        decreases sections@.len() - k,
    {
        let name = &sections[k].name;
        assert(m[k as int] == sections@[k as int].model());
        if name.len() >= 5 && name[0] == 0x2E && name[1] == 0x74 && name[2] == 0x65 && name[3] == 0x78 && name[4] == 0x74 {
            assert(name@.subrange(0, 5) =~= seq![0x2Eu8, 0x74, 0x65, 0x78, 0x74]);
            return Some(k);
        }
        proof {
            if name@.len() >= 5 {
                let sub = name@.subrange(0, 5);
                assert(sub[0] == name@[0] && sub[1] == name@[1] && sub[2] == name@[2] && sub[3] == name@[3] && sub[4] == name@[4]);
            }
        }
        k = k + 1;
    }
    None
}

/// Scans gate `g` and adds its entry RVA to `rvas` unless already there.
fn scan_one_gate(
    pe: &[u8],
    sections: &Vec<ScanSection>,
    text: &[u8],
    text_rva: u32,
    text_off: u32,
    g: usize,
    rvas: &mut Vec<u32>,
    Ghost(tm): Ghost<SectionModel>,
) -> (r: Result<(), GateScanError>)
    requires
        pe@.len() <= u32::MAX,
        g < 3,
        text@.len() <= u32::MAX,
        tm.va == text_rva,
        tm.raw_pointer == text_off,
        tm.raw_size == text@.len(),
        text@ == pe@.subrange(text_off as int, text_off + text@.len()),
    ensures
        match r {
            Ok(()) => gate_step(pe@, sections@.map_values(|s: ScanSection| s.model()), tm, g as int, old(rvas)@)
                == Ok::<Seq<u32>, GateScanError>(final(rvas)@),
            Err(e) => gate_step(pe@, sections@.map_values(|s: ScanSection| s.model()), tm, g as int, old(rvas)@)
                == Err::<Seq<u32>, GateScanError>(e),
        },
{
    let sig: &[u8] = if g == 0 {
        GATE_SIG_PRELOAD.as_bytes()
    } else if g == 1 {
        GATE_SIG_MATCH.as_bytes()
    } else {
        GATE_SIG_WIN_VERSION.as_bytes()
    };
    let prologue: &[u8] = if g < 2 { &[0x40, 0x56, 0x48, 0x83, 0xEC, 0x40] } else { &[0x4C, 0x8B, 0xDC] };
    assert(prologue@ =~= gate_prologue(g as int));
    assert(sig@ == gate_signature(g as int));
    reveal(gate_step);
    let sig_off = match find_bytes(pe, sig) {
        Some(o) => o,
        None => return Ok(()),
    };
    let sig_rva = match off_to_rva(sections, sig_off as u64) {
        Some(v) => v,
        None => return Err(GateScanError::SignatureUnmapped),
    };
    let lea = match find_lea_to_rva(text, text_rva, sig_rva) {
        Some(i) => i,
        None => return Err(GateScanError::NoCodeReference),
    };
    let f = match find_func_start_before(text, lea, prologue) {
        Some(i) => i,
        None => return Err(GateScanError::NoFunctionStart),
    };
    // The entry bytes are the prologue: `f` was found by matching it in `.text`.
    let rva = match off_to_rva(sections, text_off as u64 + f as u64) {
        Some(v) => v,
        None => return Err(GateScanError::EntryUnmapped),
    };
    if !contains_u32(rvas, rva) {
        rvas.push(rva);
    }
    Ok(())
}

/// Finds the entry points to bypass in an installer executable:
/// `BI_MatchProductModelPreload` and `BI_MatchProductModel` (the model
/// whitelist) and `CSetupHandler::WinVersionMatch` (which requires Windows 11).
/// Each is found through its signature string: the `lea` in `.text` that loads
/// the string, then the nearest expected prologue before it. A gate whose
/// string is absent is skipped; the result holds each entry RVA once, in gate
/// order, and is refused when empty.
pub fn find_match_product_patch_rvas(pe: &[u8]) -> (r: Result<Vec<u32>, GateScanError>)
    requires
        scan_reads_ok(pe@),
    ensures
        match r {
            Ok(v) => spec_gate_rvas(pe@) == Ok::<Seq<u32>, GateScanError>(v@),
            Err(e) => spec_gate_rvas(pe@) == Err::<Seq<u32>, GateScanError>(e),
        },
        r matches Ok(v) ==> forall|k: int, o: int| 0 <= k < 3 && #[trigger] occurs_at(pe@, gate_signature(k), o)
            ==> (gate_entry(pe@, k) matches Some(rva) && v@.contains(rva)),
        r matches Ok(v) ==> forall|x: u32| #[trigger] v@.contains(x) ==> exists|g: int| 0 <= g < 3 && #[trigger] gate_entry(pe@, g) == Some(x),
{
    proof {
        assert forall|k: int, o: int| 0 <= k < 3 && #[trigger] occurs_at(pe@, gate_signature(k), o) && spec_gate_rvas(pe@) is Ok
            implies (gate_entry(pe@, k) matches Some(rva) && spec_gate_rvas(pe@)->Ok_0.contains(rva)) by {
            lemma_every_present_gate_is_bypassed(pe@, k, o);
        }
        if spec_gate_rvas(pe@) is Ok {
            lemma_every_present_gate_is_bypassed_onto(pe@);
        }
    }
    let sections = match parse_pe_sections(pe) {
        Ok(s) => s,
        Err(e) => return Err(e),
    };
    let ghost secs = sections@.map_values(|s: ScanSection| s.model());
    let ti = match text_section_index(&sections) {
        Some(k) => k,
        None => return Err(GateScanError::NoTextSection),
    };
    let text_rva = sections[ti].va;
    let text_off = sections[ti].raw_pointer;
    let text_size = sections[ti].raw_size;
    let ghost tm = sections@[ti as int].model();
    if text_off as u64 + text_size as u64 > pe.len() as u64 {
        return Err(GateScanError::TextOutOfBounds);
    }
    let text = copy_range(pe, text_off as usize, text_off as usize + text_size as usize);
    let mut rvas: Vec<u32> = Vec::new();
    let mut g: usize = 0;
    while g < 3
        invariant
            pe@.len() <= u32::MAX,
            secs == sections@.map_values(|s: ScanSection| s.model()),
            tm.va == text_rva && tm.raw_pointer == text_off && tm.raw_size == text_size,
            spec_scan_sections(pe@) == Ok::<Seq<SectionModel>, GateScanError>(secs),
            text_section_from(secs, 0) == Some(tm),
            text_off + text_size <= pe@.len(),
            text@ == pe@.subrange(text_off as int, text_off + text_size),
            g <= 3,
            scan_gates(pe@, secs, tm, 0, Seq::empty()) == scan_gates(pe@, secs, tm, g as int, rvas@),
        decreases 3 - g,
    {
        let ghost before = rvas@;
        match scan_one_gate(pe, &sections, text.as_slice(), text_rva, text_off, g, &mut rvas, Ghost(tm)) {
            Ok(()) => {},
            Err(e) => {
                assert(scan_gates(pe@, secs, tm, g as int, before) == Err::<Seq<u32>, GateScanError>(e));
                return Err(e);
            },
        }
        g = g + 1;
    }
    if rvas.len() == 0 {
        return Err(GateScanError::GatesNotFound);
    }
    Ok(rvas)
}

// ---------------------------------------------------------------- local installers

/// The key installers are listed by: the file name in ASCII lower case.
pub open spec fn listing_key(name: Seq<char>) -> Seq<char> {
    lower_chars(name)
}

/// `order` is ordered by listing key, and indices with equal keys ascend.
pub open spec fn ordered_by_key(names: Seq<Seq<char>>, order: Seq<usize>) -> bool {
    forall|a: int, b: int| 0 <= a < b < order.len() ==> ordered_pair(names, #[trigger] order[a], #[trigger] order[b])
}

/// `x` may come before `y`: its key is not greater, and with equal keys its index is smaller.
pub open spec fn ordered_pair(names: Seq<Seq<char>>, x: usize, y: usize) -> bool {
    &&& !chars_lt(listing_key(names[y as int]), listing_key(names[x as int]))
    &&& (listing_key(names[x as int]) == listing_key(names[y as int]) ==> x < y)
}

/// `order` lists, each once, exactly the indices of the names in `names`
/// that are installer names, by their listing key, and names with equal keys
/// in their original order.
pub open spec fn installer_listing(names: Seq<Seq<char>>, order: Seq<usize>) -> bool {
    &&& order.no_duplicates()
    &&& forall|k: int| 0 <= k < order.len() ==> (#[trigger] order[k]) < names.len()
    &&& forall|k: int| 0 <= k < order.len() ==> (#[trigger] spec_classify(names[order[k] as int])) is Some
    &&& forall|i: int| 0 <= i < names.len() && (#[trigger] spec_classify(names[i])) is Some ==> order.contains(i as usize)
    &&& ordered_by_key(names, order)
}

/// Inserting index `i` before the first key greater than its own keeps the order.
proof fn lemma_insert_ordered(names: Seq<Seq<char>>, before: Seq<usize>, p: int, i: usize)
    requires
        0 <= p <= before.len(),
        i < names.len(),
        ordered_by_key(names, before),
        forall|k: int| 0 <= k < before.len() ==> (#[trigger] before[k]) < i && before[k] < names.len(),
        forall|k: int| 0 <= k < p ==> !chars_lt(listing_key(names[i as int]), listing_key(names[#[trigger] before[k] as int])),
        forall|k: int| p <= k < before.len() ==> chars_lt(listing_key(names[i as int]), listing_key(names[#[trigger] before[k] as int])),
    ensures
        ordered_by_key(names, before.insert(p, i)),
{
    let o = before.insert(p, i);
    let ki = listing_key(names[i as int]);
    assert forall|a: int, b: int| 0 <= a < b < o.len() implies ordered_pair(names, #[trigger] o[a], #[trigger] o[b]) by {
        if b < p {
            assert(o[a] == before[a] && o[b] == before[b]);
            assert(ordered_pair(names, before[a], before[b]));
        } else if b == p {
            assert(o[a] == before[a] && o[b] == i);
            assert(!chars_lt(ki, listing_key(names[before[a] as int])));
        } else if a < p {
            assert(o[a] == before[a] && o[b] == before[b - 1]);
            assert(ordered_pair(names, before[a], before[b - 1]));
        } else if a == p {
            assert(o[a] == i && o[b] == before[b - 1]);
            let kb = listing_key(names[before[b - 1] as int]);
            assert(chars_lt(ki, kb));
            crate::install::lemma_chars_lt_asymmetric(ki, kb);
            crate::install::lemma_chars_lt_irreflexive(ki);
        } else {
            assert(o[a] == before[a - 1] && o[b] == before[b - 1]);
            assert(ordered_pair(names, before[a - 1], before[b - 1]));
        }
    }
}

/// The installers among the file names of a directory, as indices into
/// `names`, ordered by file name ignoring ASCII case (a stable order).
pub fn installer_order(names: &Vec<String>) -> (r: Vec<usize>)
    ensures
        installer_listing(crate::install::strings_view(names@), r@),
{
    let ghost nv = crate::install::strings_view(names@);
    let mut keys: Vec<Vec<char>> = Vec::new();
    let mut j: usize = 0;
    while j < names.len()
        invariant
            nv == crate::install::strings_view(names@),
            j <= names@.len(),
            keys@.len() == j,
            forall|k: int| 0 <= k < j ==> (#[trigger] keys@[k])@ == listing_key(nv[k]),
        decreases names@.len() - j,
    {
        keys.push(ascii_lowercase(names[j].as_str()));
        assert(nv[j as int] == names@[j as int]@);
        j = j + 1;
    }
    let mut out: Vec<usize> = Vec::new();
    let mut i: usize = 0;
    while i < names.len()
        invariant
            nv == crate::install::strings_view(names@),
            i <= names@.len(),
            keys@.len() == names@.len(),
            forall|k: int| 0 <= k < names@.len() ==> (#[trigger] keys@[k])@ == listing_key(nv[k]),
            out@.no_duplicates(),
            forall|k: int| 0 <= k < out@.len() ==> (#[trigger] out@[k]) < i,
            forall|k: int| 0 <= k < out@.len() ==> (#[trigger] spec_classify(nv[out@[k] as int])) is Some,
            forall|m: int| 0 <= m < i && (#[trigger] spec_classify(nv[m])) is Some ==> out@.contains(m as usize),
            ordered_by_key(nv, out@),
        decreases names@.len() - i,
    {
        assert(nv[i as int] == names@[i as int]@);
        if classify_installer_filename(names[i].as_str()).is_some() {
            let ghost ki = listing_key(nv[i as int]);
            let mut p: usize = 0;
            while p < out.len() && !crate::install::chars_before(&keys[i], &keys[out[p]])
                invariant
                    i < names@.len(),
                    keys@.len() == names@.len(),
                    forall|k: int| 0 <= k < names@.len() ==> (#[trigger] keys@[k])@ == listing_key(nv[k]),
                    forall|k: int| 0 <= k < out@.len() ==> (#[trigger] out@[k]) < i,
                    ki == listing_key(nv[i as int]),
                    p <= out@.len(),
                    forall|k: int| 0 <= k < p ==> !chars_lt(ki, listing_key(nv[#[trigger] out@[k] as int])),
                decreases out@.len() - p,
            {
                p = p + 1;
            }
            proof {
                assert forall|k: int| p <= k < out@.len() implies chars_lt(ki, listing_key(nv[#[trigger] out@[k] as int])) by {
                    let kp = listing_key(nv[out@[p as int] as int]);
                    let kk = listing_key(nv[out@[k] as int]);
                    assert(chars_lt(ki, kp));
                    if k > p {
                        assert(ordered_pair(nv, out@[p as int], out@[k]));
                        crate::install::lemma_chars_lt_total(kp, kk);
                        if kp != kk {
                            crate::install::lemma_chars_lt_transitive(ki, kp, kk);
                        }
                    }
                }
                lemma_insert_ordered(nv, out@, p as int, i);
            }
            let ghost before = out@;
            out.insert(p, i);
            proof {
                assert(out@ =~= before.insert(p as int, i));
                assert forall|x: int, y: int| 0 <= x < y < out@.len() implies out@[x] != out@[y] by {
                    if x == p as int {
                        assert(out@[y] == before[y - 1]);
                    } else if y == p as int {
                        assert(out@[x] == before[x]);
                    } else {
                        let bx = if x < p { x } else { x - 1 };
                        let by_ = if y < p { y } else { y - 1 };
                        assert(out@[x] == before[bx] && out@[y] == before[by_]);
                    }
                }
                assert forall|k: int| 0 <= k < out@.len() implies (#[trigger] out@[k]) < i + 1 by {
                    if k < p {
                        assert(out@[k] == before[k]);
                    } else if k > p {
                        assert(out@[k] == before[k - 1]);
                    }
                }
                assert forall|k: int| 0 <= k < out@.len() implies (#[trigger] spec_classify(nv[out@[k] as int])) is Some by {
                    if k < p {
                        assert(out@[k] == before[k]);
                    } else if k > p {
                        assert(out@[k] == before[k - 1]);
                    }
                }
                assert forall|m: int| 0 <= m < i + 1 && (#[trigger] spec_classify(nv[m])) is Some implies out@.contains(m as usize) by {
                    if m == i {
                        assert(out@[p as int] == i);
                    } else {
                        let k = choose|k: int| 0 <= k < before.len() && before[k] == m as usize;
                        if k < p {
                            assert(out@[k] == m as usize);
                        } else {
                            assert(out@[k + 1] == m as usize);
                        }
                    }
                }
            }
        } else {
            assert(spec_classify(nv[i as int]) is None);
        }
        i = i + 1;
    }
    out
}

// ---------------------------------------------------------------- preparing, downloading, rolling back

/// What `Path::extension` gives for a file name: the text after the last
/// dot, unless there is no dot or the only one starts the name.
pub open spec fn spec_extension(name: Seq<char>) -> Option<Seq<char>> {
    match last_dot(name, name.len() as int) {
        None => None,
        Some(k) => if k == 0 { None } else { Some(name.subrange(k + 1, name.len() as int)) },
    }
}

/// The index of the last `.` before `end`.
pub open spec fn last_dot(name: Seq<char>, end: int) -> Option<int>
    decreases end,
{
    if end <= 0 || end > name.len() {
        None
    } else if name[end - 1] == '.' {
        Some(end - 1)
    } else {
        last_dot(name, end - 1)
    }
}

proof fn lemma_last_dot_bounds(name: Seq<char>, end: int)
    ensures
        last_dot(name, end) matches Some(k) ==> 0 <= k < end && k < name.len() && name[k] == '.',
    decreases end,
{
    if 0 < end <= name.len() && name[end - 1] != '.' {
        lemma_last_dot_bounds(name, end - 1);
    }
}

/// The file name's extension is `exe`, ignoring ASCII case.
pub open spec fn has_exe_extension(name: Seq<char>) -> bool {
    spec_extension(name) matches Some(e) && lower_chars(e) == "exe"@
}

fn exe_extension(name: &str) -> (r: bool)
    ensures
        r == has_exe_extension(name@),
{
    let cs = chars_of(name);
    let mut end: usize = cs.len();
    while end > 0 && cs[end - 1] != '.'
        invariant
            cs@ == name@,
            end <= cs@.len(),
            last_dot(name@, name@.len() as int) == last_dot(name@, end as int),
        decreases end,
    {
        end = end - 1;
    }
    proof {
        lemma_last_dot_bounds(name@, name@.len() as int);
    }
    if end == 0 {
        return false;
    }
    assert(last_dot(name@, end as int) == Some(end - 1));
    if end == 1 {
        return false;
    }
    let ext = name.substring_char(end, cs.len());
    let lower = ascii_lowercase(ext);
    proof {
        reveal_strlit("exe");
    }
    let want = chars_of("exe");
    let r = lower.len() == 3 && lower[0] == want[0] && lower[1] == want[1] && lower[2] == want[2];
    proof {
        assert(ext@ == name@.subrange(end as int, name@.len() as int));
        if r {
            assert(lower@ =~= "exe"@);
        } else {
            assert(lower@ != "exe"@);
        }
    }
    r
}

/// Why an installer cannot be prepared.
#[derive(Debug, Clone, PartialEq, Eq)]
pub enum PrepareError {
    /// The installer (path given) does not exist.
    Missing(String),
    /// The installer (path given) is not an `.exe` file.
    NotExe(String),
}

impl PrepareError {
    /// The text shown for the error.
    pub fn message(&self) -> (r: String)
        ensures
            r@ == (match self {
                PrepareError::Missing(p) => "指定的安装包不存在："@ + p@,
                PrepareError::NotExe(p) => "安装包必须是 .exe 文件："@ + p@,
            }),
    {
        match self {
            PrepareError::Missing(p) => {
                let mut s = String::from_str("指定的安装包不存在：");
                s.append(p.as_str());
                s
            },
            PrepareError::NotExe(p) => {
                let mut s = String::from_str("安装包必须是 .exe 文件：");
                s.append(p.as_str());
                s
            },
        }
    }
}

/// An installer can be prepared when it is a file whose name has the `exe`
/// extension (any ASCII case); `file_name` is the last component of `path`.
pub fn check_installer(path: &str, file_name: Option<&str>, is_file: bool) -> (r: Result<(), PrepareError>)
    ensures
        !is_file ==> (r matches Err(PrepareError::Missing(p)) && p@ == path@),
        is_file && !(file_name matches Some(n) && has_exe_extension(n@)) ==> (r matches Err(PrepareError::NotExe(p)) && p@ == path@),
        is_file && (file_name matches Some(n) && has_exe_extension(n@)) ==> r is Ok,
{
    if !is_file {
        return Err(PrepareError::Missing(String::from_str(path)));
    }
    let ok = match file_name {
        Some(n) => exe_extension(n),
        None => false,
    };
    if !ok {
        return Err(PrepareError::NotExe(String::from_str(path)));
    }
    Ok(())
}

/// The download command: the URL and the target travel in environment
/// variables, never inside the script text.
pub const DOWNLOAD_SCRIPT: &'static str = "$ErrorActionPreference = 'Stop'; [Net.ServicePointManager]::SecurityProtocol = [Net.SecurityProtocolType]::Tls12; Invoke-WebRequest -UseBasicParsing -Uri $env:MIPCM_DOWNLOAD_URL -OutFile $env:MIPCM_DOWNLOAD_TARGET";

/// The file a download is written to before it is renamed into place.
pub fn download_temporary_path(target: &str) -> (r: String)
    ensures
        r@ == target@ + ".download.tmp"@,
{
    let mut s = String::from_str(target);
    s.append(".download.tmp");
    s
}

/// The refusal to overwrite an existing download target.
pub fn download_target_exists(target: &str) -> (r: String)
    ensures
        r@ == "下载目标已存在，为避免覆盖已取消："@ + target@,
{
    let mut s = String::from_str("下载目标已存在，为避免覆盖已取消：");
    s.append(target);
    s
}

/// What undoing a failed installer launch does to the proxy's place.
#[derive(Debug, Clone, Copy, PartialEq, Eq)]
pub struct RollbackPlan {
    /// Write the previous proxy file back.
    pub restore_previous: bool,
    /// Delete the proxy (there was none before).
    pub remove_proxy: bool,
    /// Delete the backup the launch created.
    pub remove_backup: bool,
    /// Delete the temporary file the launch created.
    pub remove_temporary: bool,
}

/// A failed launch leaves things as they were: the previous proxy comes back
/// or the new one goes, and a backup or temporary file that did not exist
/// before the launch is removed.
pub fn rollback_plan(
    previous_present: bool,
    proxy_exists: bool,
    backup_existed: bool,
    backup_exists: bool,
    temporary_existed: bool,
    temporary_is_file: bool,
) -> (r: RollbackPlan)
    ensures
        r.restore_previous == previous_present,
        r.remove_proxy == (!previous_present && proxy_exists),
        r.remove_backup == (!backup_existed && backup_exists),
        r.remove_temporary == (!temporary_existed && temporary_is_file),
{
    RollbackPlan {
        restore_previous: previous_present,
        remove_proxy: !previous_present && proxy_exists,
        remove_backup: !backup_existed && backup_exists,
        remove_temporary: !temporary_existed && temporary_is_file,
    }
}

} // verus!

verus! {

// ---------------------------------------------------------------- entries

/// A function entry in the padding sense: the prologue at `j`, right after
/// an `int3` or `ret` byte.
pub open spec fn entry_after_end(text: Seq<u8>, prologue: Seq<u8>, j: int) -> bool {
    prologue_at(text, prologue, j) && after_function_end(text, j)
}

proof fn lemma_padded_nearest(text: Seq<u8>, prologue: Seq<u8>, start: int, hi: int)
    ensures
        match padded_start(text, prologue, start, hi) {
            Some(i) => start <= i <= hi && entry_after_end(text, prologue, i) && forall|j: int|
                i < j <= hi ==> !#[trigger] entry_after_end(text, prologue, j),
            None => forall|j: int| start <= j <= hi ==> !#[trigger] entry_after_end(text, prologue, j),
        },
    decreases hi - start + 1,
{
    if hi >= start && !entry_after_end(text, prologue, hi) {
        lemma_padded_nearest(text, prologue, start, hi - 1);
    }
}

proof fn lemma_plain_nearest(text: Seq<u8>, prologue: Seq<u8>, start: int, hi: int)
    ensures
        match plain_start(text, prologue, start, hi) {
            Some(i) => start <= i <= hi && prologue_at(text, prologue, i) && forall|j: int|
                i < j <= hi ==> !#[trigger] prologue_at(text, prologue, j),
            None => forall|j: int| start <= j <= hi ==> !#[trigger] prologue_at(text, prologue, j),
        },
    decreases hi - start + 1,
{
    if hi >= start && !prologue_at(text, prologue, hi) {
        lemma_plain_nearest(text, prologue, start, hi - 1);
    }
}

/// The function start found for a `lea` at `lea_off` is the nearest entry
/// before it: within the 0x400 bytes up to the `lea`, the last prologue that
/// follows an `int3`/`ret` byte, so no later such entry lies between it and
/// the `lea`; only when the window holds no such entry, the last prologue of
/// the window. No start is found only when the window holds no prologue.
pub proof fn lemma_func_start_is_nearest(text: Seq<u8>, lea_off: int, prologue: Seq<u8>)
    ensures
        ({
            let start = if lea_off >= 0x400 { lea_off - 0x400 } else { 0 };
            match spec_func_start(text, lea_off, prologue) {
                Some(i) => {
                    &&& start <= i <= lea_off
                    &&& prologue_at(text, prologue, i)
                    &&& if exists|j: int| start <= j <= lea_off && #[trigger] entry_after_end(text, prologue, j) {
                        &&& after_function_end(text, i)
                        &&& forall|j: int| i < j <= lea_off ==> !#[trigger] entry_after_end(text, prologue, j)
                    } else {
                        forall|j: int| i < j <= lea_off ==> !#[trigger] prologue_at(text, prologue, j)
                    }
                },
                None => forall|j: int| start <= j <= lea_off ==> !#[trigger] prologue_at(text, prologue, j),
            }
        }),
{
    let start = if lea_off >= 0x400 { lea_off - 0x400 } else { 0 };
    lemma_padded_nearest(text, prologue, start, lea_off);
    lemma_plain_nearest(text, prologue, start, lea_off);
    match padded_start(text, prologue, start, lea_off) {
        Some(i) => {
            assert(exists|j: int| start <= j <= lea_off && #[trigger] entry_after_end(text, prologue, j)) by {
                assert(entry_after_end(text, prologue, i));
            }
        },
        None => {
            match plain_start(text, prologue, start, lea_off) {
                Some(i) => {},
                None => {
                    assert forall|j: int| start <= j <= lea_off implies !#[trigger] prologue_at(text, prologue, j) by {}
                },
            }
        },
    }
}

/// The entry RVA of gate `k` in `pe`: the RVA of the function start before
/// the first matching `lea`.
pub open spec fn gate_entry(pe: Seq<u8>, k: int) -> Option<u32> {
    match spec_scan_sections(pe) {
        Err(_) => None,
        Ok(secs) => match text_section_from(secs, 0) {
            None => None,
            Some(t) => match spec_find(pe, gate_signature(k)) {
                None => None,
                Some(o) => match spec_off_to_rva(secs, o, 0) {
                    None => None,
                    Some(sig_rva) => {
                        let code = pe.subrange(t.raw_pointer as int, t.raw_pointer + t.raw_size);
                        match find_lea_from(code, t.va as int, sig_rva as int, 0) {
                            None => None,
                            Some(lea) => match spec_func_start(code, lea, gate_prologue(k)) {
                                None => None,
                                Some(f) => spec_off_to_rva(secs, t.raw_pointer + f, 0),
                            },
                        }
                    },
                },
            },
        },
    }
}

proof fn lemma_scan_gates_collects(pe: Seq<u8>, secs: Seq<SectionModel>, t: SectionModel, k: int, acc: Seq<u32>)
    requires
        0 <= k <= 3,
        spec_scan_sections(pe) == Ok::<Seq<SectionModel>, GateScanError>(secs),
        text_section_from(secs, 0) == Some(t),
    ensures
        scan_gates(pe, secs, t, k, acc) matches Ok(v) ==> {
            &&& forall|x: u32| acc.contains(x) ==> #[trigger] v.contains(x)
            &&& forall|g: int| k <= g < 3 && #[trigger] spec_find(pe, gate_signature(g)) is Some ==> (gate_entry(pe, g) matches Some(rva)
                && v.contains(rva))
            &&& forall|x: u32| #[trigger] v.contains(x) ==> acc.contains(x) || exists|g: int| k <= g < 3 && #[trigger] gate_entry(pe, g) == Some(x)
        },
    decreases 3 - k,
{
    if k < 3 {
        reveal(gate_step);
        match gate_step(pe, secs, t, k, acc) {
            Err(_) => {},
            Ok(acc2) => {
                lemma_scan_gates_collects(pe, secs, t, k + 1, acc2);
                if scan_gates(pe, secs, t, k, acc) is Ok {
                    let v = scan_gates(pe, secs, t, k, acc)->Ok_0;
                    assert(scan_gates(pe, secs, t, k + 1, acc2) == Ok::<Seq<u32>, GateScanError>(v));
                    if spec_find(pe, gate_signature(k)) is Some {
                        let rva = gate_entry(pe, k)->Some_0;
                        assert(gate_entry(pe, k) is Some);
                        assert(acc2.contains(rva)) by {
                            if !acc.contains(rva) {
                                assert(acc2 == acc.push(rva));
                                assert(acc2[acc.len() as int] == rva);
                            }
                        }
                        assert forall|x: u32| acc2.contains(x) implies acc.contains(x) || x == rva by {
                            if !acc.contains(rva) {
                                let i = choose|i: int| 0 <= i < acc2.len() && acc2[i] == x;
                                if i < acc.len() {
                                    assert(acc[i] == x);
                                }
                            }
                        }
                        assert forall|x: u32| acc.contains(x) implies acc2.contains(x) by {
                            if !acc.contains(rva) {
                                let i = choose|i: int| 0 <= i < acc.len() && acc[i] == x;
                                assert(acc2[i] == x);
                            }
                        }
                        assert forall|x: u32| #[trigger] v.contains(x) implies acc.contains(x) || exists|g: int|
                            k <= g < 3 && #[trigger] gate_entry(pe, g) == Some(x) by {
                            if !acc.contains(x) && !acc2.contains(x) {
                                let g = choose|g: int| k + 1 <= g < 3 && #[trigger] gate_entry(pe, g) == Some(x);
                                assert(k <= g < 3 && gate_entry(pe, g) == Some(x));
                            } else if !acc.contains(x) {
                                assert(x == rva);
                                assert(gate_entry(pe, k) == Some(x));
                            }
                        }
                    } else {
                        assert(acc2 == acc);
                        assert forall|x: u32| #[trigger] v.contains(x) implies acc.contains(x) || exists|g: int|
                            k <= g < 3 && #[trigger] gate_entry(pe, g) == Some(x) by {
                            if !acc.contains(x) {
                                let g = choose|g: int| k + 1 <= g < 3 && #[trigger] gate_entry(pe, g) == Some(x);
                                assert(k <= g < 3 && gate_entry(pe, g) == Some(x));
                            }
                        }
                    }
                }
            },
        }
    }
}

/// Each RVA of a successful scan is the entry of one of the three gates.
pub proof fn lemma_every_present_gate_is_bypassed_onto(pe: Seq<u8>)
    requires
        spec_gate_rvas(pe) is Ok,
    ensures
        forall|x: u32| #[trigger] spec_gate_rvas(pe)->Ok_0.contains(x) ==> exists|g: int| 0 <= g < 3 && #[trigger] gate_entry(pe, g) == Some(x),
{
    let secs = spec_scan_sections(pe)->Ok_0;
    let t = text_section_from(secs, 0)->Some_0;
    lemma_scan_gates_collects(pe, secs, t, 0, Seq::empty());
}

proof fn lemma_signatures_not_empty(k: int)
    requires
        0 <= k < 3,
    ensures
        gate_signature(k).len() > 0,
{
    broadcast use vstd::string::is_ascii_spec_bytes;
    reveal_strlit("bool __cdecl BI_MatchProductModelPreload");
    reveal_strlit("bool __cdecl BI_MatchProductModel(");
    reveal_strlit("bool __cdecl CSetupHandler::WinVersionMatch(void)");
    if k == 0 {
        assert(vstd::string::is_ascii(GATE_SIG_PRELOAD));
    } else if k == 1 {
        assert(vstd::string::is_ascii(GATE_SIG_MATCH));
    } else {
        assert(vstd::string::is_ascii(GATE_SIG_WIN_VERSION));
    }
}

/// Every gate whose signature string occurs in the image is bypassed: a
/// successful scan's result holds the entry RVA found for it (so with the
/// `WinVersionMatch` string present, the entry of the function whose `lea`
/// loads it is patched too). And the result holds nothing else: each RVA in
/// it is the entry of one of the three gates.
pub proof fn lemma_every_present_gate_is_bypassed(pe: Seq<u8>, k: int, o: int)
    requires
        0 <= k < 3,
        occurs_at(pe, gate_signature(k), o),
        spec_gate_rvas(pe) is Ok,
    ensures
        gate_entry(pe, k) matches Some(rva) && spec_gate_rvas(pe)->Ok_0.contains(rva),
        forall|x: u32| #[trigger] spec_gate_rvas(pe)->Ok_0.contains(x) ==> exists|g: int| 0 <= g < 3 && #[trigger] gate_entry(pe, g) == Some(x),
{
    lemma_signatures_not_empty(k);
    crate::infra::bytes::lemma_find_some(pe, gate_signature(k), o);
    let secs = spec_scan_sections(pe)->Ok_0;
    let t = text_section_from(secs, 0)->Some_0;
    lemma_scan_gates_collects(pe, secs, t, 0, Seq::empty());
    assert(spec_find(pe, gate_signature(k)) is Some);
}

} // verus!
