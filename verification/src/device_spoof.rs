//! Device disguise: the proxy `msimg32.dll` next to PC Manager reads a model
//! code from `HKCU\Software\SmartSharePatch\SpoofDevice` and reports it in
//! place of the real device. This module holds the presets and checks the
//! model code that is written there.

use vstd::prelude::*;
use vstd::string::StrSliceExecFns;
use crate::infra::text::chars_of;

verus! {

/// File name of the proxy DLL.
pub const PROXY_DLL_NAME: &'static str = "msimg32.dll";

/// Model code used when none is chosen.
pub const DEFAULT_MODEL: &'static str = "TM2424";

/// Registry key and value that hold the model code, under `HKCU`.
pub const REG_SUBKEY: &'static str = "Software\\SmartSharePatch";
pub const REG_VALUE: &'static str = "SpoofDevice";

/// A model offered for selection.
pub struct ModelPreset {
    pub code: &'static str,
    pub name: &'static str,
}

/// The offered models: Xiaomi Book Pro 14 (2026) and Redmi Book 16 (2024).
pub fn presets() -> (r: Vec<ModelPreset>)
    ensures
        r@.len() == 2,
        r@[0].code@ == "TM2424"@ && r@[0].name@ == "Xiaomi Book Pro 14 (2026)"@,
        r@[1].code@ == "TM2309"@ && r@[1].name@ == "Redmi Book 16 (2024)"@,
{
    let mut r: Vec<ModelPreset> = Vec::new();
    r.push(ModelPreset { code: "TM2424", name: "Xiaomi Book Pro 14 (2026)" });
    r.push(ModelPreset { code: "TM2309", name: "Redmi Book 16 (2024)" });
    r
}

/// Why a model code is refused.
#[derive(Debug, Clone, Copy, PartialEq, Eq)]
pub enum DeviceError {
    /// The model code is empty or only white space.
    EmptyModel,
}

impl DeviceError {
    /// The text shown for the error.
    pub fn message(self) -> (r: &'static str)
        ensures
            r@ == "机型代号不能为空"@,
    {
        "机型代号不能为空"
    }
}

/// A character `char::is_whitespace` accepts (Unicode `White_Space`).
pub open spec fn is_white_space(c: char) -> bool {
    ||| c == '\t' || c == '\n' || c == '\u{B}' || c == '\u{C}' || c == '\r' || c == ' '
    ||| c == '\u{85}' || c == '\u{A0}' || c == '\u{1680}'
    ||| ('\u{2000}' <= c && c <= '\u{200A}')
    ||| c == '\u{2028}' || c == '\u{2029}' || c == '\u{202F}' || c == '\u{205F}' || c == '\u{3000}'
}

/// The index of the first non-white-space character at or after `i`, or the length.
pub open spec fn trim_start_at(s: Seq<char>, i: int) -> int
    decreases s.len() - i,
{
    if i < 0 || i >= s.len() {
        s.len() as int
    } else if is_white_space(s[i]) {
        trim_start_at(s, i + 1)
    } else {
        i
    }
}

/// The index just past the last non-white-space character before `end`, not below `lo`.
pub open spec fn trim_end_at(s: Seq<char>, lo: int, end: int) -> int
    decreases end - lo,
{
    if end <= lo {
        lo
    } else if is_white_space(s[end - 1]) {
        trim_end_at(s, lo, end - 1)
    } else {
        end
    }
}

/// `s` without leading and trailing white space, as `str::trim` gives it.
pub open spec fn spec_trim(s: Seq<char>) -> Seq<char> {
    let a = trim_start_at(s, 0);
    s.subrange(a, trim_end_at(s, a, s.len() as int))
}

fn is_ws(c: char) -> (r: bool)
    ensures
        r == is_white_space(c),
{
    c == '\t' || c == '\n' || c == '\u{B}' || c == '\u{C}' || c == '\r' || c == ' ' || c == '\u{85}'
        || c == '\u{A0}' || c == '\u{1680}' || ('\u{2000}' <= c && c <= '\u{200A}') || c == '\u{2028}'
        || c == '\u{2029}' || c == '\u{202F}' || c == '\u{205F}' || c == '\u{3000}'
}

proof fn lemma_trim_bounds(s: Seq<char>, i: int)
    requires
        0 <= i <= s.len(),
    ensures
        i <= trim_start_at(s, i) <= s.len(),
    decreases s.len() - i,
{
    if i < s.len() && is_white_space(s[i]) {
        lemma_trim_bounds(s, i + 1);
    }
}

proof fn lemma_trim_end_bounds(s: Seq<char>, lo: int, end: int)
    requires
        lo <= end,
    ensures
        lo <= trim_end_at(s, lo, end) <= end,
    decreases end - lo,
{
    if end > lo && is_white_space(s[end - 1]) {
        lemma_trim_end_bounds(s, lo, end - 1);
    }
}

/// `s` without leading and trailing white space.
pub fn trim(s: &str) -> (r: &str)
    ensures
        r@ == spec_trim(s@),
{
    let cs = chars_of(s);
    let mut a: usize = 0;
    while a < cs.len() && is_ws(cs[a])
        invariant
            cs@ == s@,
            a <= cs@.len(),
            trim_start_at(s@, 0) == trim_start_at(s@, a as int),
        decreases cs@.len() - a,
    {
        a = a + 1;
    }
    let mut e: usize = cs.len();
    while e > a && is_ws(cs[e - 1])
        invariant
            cs@ == s@,
            a <= e <= cs@.len(),
            trim_end_at(s@, a as int, s@.len() as int) == trim_end_at(s@, a as int, e as int),
        decreases e - a,
    {
        e = e - 1;
    }
    s.substring_char(a, e)
}

/// The model code to write for `model`: the code without surrounding white
/// space, refused when nothing is left.
pub fn ensure_spoof_model(model: &str) -> (r: Result<String, DeviceError>)
    ensures
        match r {
            Ok(m) => m@ == spec_trim(model@) && m@.len() > 0,
            Err(e) => e == DeviceError::EmptyModel && spec_trim(model@).len() == 0,
        },
{
    let t = trim(model);
    if t.unicode_len() == 0 {
        return Err(DeviceError::EmptyModel);
    }
    Ok(t.to_string())
}

// ---------------------------------------------------------------- proxy file

/// `a` and `b` hold the same bytes.
pub fn same_bytes(a: &[u8], b: &[u8]) -> (r: bool)
    ensures
        r == (a@ == b@),
{
    if a.len() != b.len() {
        return false;
    }
    let r = crate::infra::bytes::bytes_equal_at(a, 0, b);
    assert(a@.subrange(0, b@.len() as int) =~= a@);
    r
}

/// The bytes of a file as read: `None` when it does not exist.
pub open spec fn file_view(current: Option<Vec<u8>>) -> Option<Seq<u8>> {
    match current {
        Some(d) => Some(d@),
        None => None,
    }
}

/// Deploying the proxy over a file that is not the proxy backs that file up
/// first, unless a backup exists already.
pub fn needs_backup(current: &Option<Vec<u8>>, proxy: &[u8], backup_exists: bool) -> (r: bool)
    ensures
        r == (file_view(*current) matches Some(c) && c != proxy@ && !backup_exists),
{
    match current {
        Some(c) => !same_bytes(c.as_slice(), proxy) && !backup_exists,
        None => false,
    }
}

/// What reverting the device spoof does with the proxy's place.
#[derive(Debug, Clone, Copy, PartialEq, Eq)]
pub enum ProxyRevert {
    /// Put the backed-up original back and drop the backup.
    RestoreBackup,
    /// Delete the proxy the tool deployed.
    RemoveProxy,
    /// Leave the file alone: it is not the tool's.
    Keep,
}

/// A backup is restored; without one, only the tool's own proxy is removed.
pub fn proxy_revert(backup_exists: bool, current: &Option<Vec<u8>>, proxy: &[u8]) -> (r: ProxyRevert)
    ensures
        backup_exists ==> r == ProxyRevert::RestoreBackup,
        !backup_exists && file_view(*current) == Some(proxy@) ==> r == ProxyRevert::RemoveProxy,
        !backup_exists && file_view(*current) != Some(proxy@) ==> r == ProxyRevert::Keep,
{
    if backup_exists {
        return ProxyRevert::RestoreBackup;
    }
    match current {
        Some(c) => if same_bytes(c.as_slice(), proxy) { ProxyRevert::RemoveProxy } else { ProxyRevert::Keep },
        None => ProxyRevert::Keep,
    }
}

/// The proxy in a directory is the tool's: the file could be read and holds
/// exactly the proxy's bytes.
pub fn proxy_is_current(current: &Option<Vec<u8>>, proxy: &[u8]) -> (r: bool)
    ensures
        r == (file_view(*current) == Some(proxy@)),
{
    match current {
        Some(c) => same_bytes(c.as_slice(), proxy),
        None => false,
    }
}

} // verus!
