//! Media routing for the wired + Wi-Fi case of audio casting.
//!
//! The IfType patch of MiPCAudio / idmruntime only changes the discovery
//! identity; the audio TCP session is opened by MiPlayCastService. With a
//! wired and a Wi-Fi adapter on the same IPv4 subnet, Windows sends that
//! session from the wired adapter (lower metric) and the phone tears it down
//! right after PLAY. The fix is a persistent route with a lower metric on the
//! Wi-Fi adapter's local subnet: it covers only LAN peers, so the default
//! route can stay on the wired adapter.
//!
//! The route is queried and changed through PowerShell by the caller; this
//! module reads the adapter query's answer, computes the subnet prefix, and
//! writes and reads the state file that records the route the tool created.

use vstd::prelude::*;
use vstd::string::StrSliceExecFns;
use vstd::string::StringExecFns;
use crate::device_spoof::{spec_trim, trim};
use crate::infra::text::{
    chars_of, digits_value, is_digit, lines_of, parse_u64_chars, pieces_view, push_decimal, spec_decimal, spec_lines,
    spec_parse_u64, split_chars, split_on, starts_with_chars, free_of, lemma_decimal, lemma_parse_decimal,
    lemma_split_sep, lemma_split_single, strip_cr,
};

verus! {

/// File in the version directory that records the route the tool created.
pub const STATE_FILE: &'static str = ".mipcm_audio_wifi_route";
/// Metric of the route.
pub const ROUTE_METRIC: u32 = 1;

/// The Wi-Fi adapter to pin: its interface index and local subnet prefix.
#[derive(Debug, Clone, PartialEq, Eq)]
pub struct WifiSubnet {
    pub interface_index: u32,
    pub prefix: String,
}

/// The route the tool created, as the state file records it.
#[derive(Debug, Clone, PartialEq, Eq)]
pub struct RouteState {
    pub interface_index: u32,
    pub prefix: String,
}

/// Why an adapter answer, a prefix or a state file is refused.
#[derive(Debug, Clone, Copy, PartialEq, Eq)]
pub enum RouteError {
    /// The adapter answer's interface index is not a `u32`.
    InvalidIndex,
    /// The adapter answer has no IPv4 address.
    MissingAddress,
    /// The adapter answer's IPv4 address is invalid.
    InvalidAddress,
    /// The adapter answer has no prefix length.
    MissingPrefixLength,
    /// The adapter answer's prefix length is not a `u8`.
    InvalidPrefixLength,
    /// The adapter answer has more than three fields.
    ExtraField,
    /// The prefix length is not between 1 and 31.
    PrefixLengthOutOfRange,
    /// A recorded prefix has no `/`.
    InvalidRoutePrefix,
    /// A recorded prefix's address is invalid.
    InvalidRouteAddress,
    /// A recorded prefix's length is not a `u8`.
    InvalidRoutePrefixLength,
    /// A recorded prefix is not a network address.
    NotNetworkAddress,
    /// The recorded interface index is not a `u32`.
    InvalidStateIndex,
    /// The state file lacks the interface index or the prefix.
    MalformedStateFile,
}

// ---------------------------------------------------------------- numbers

/// What `u32::from_str` accepts.
pub open spec fn spec_parse_u32(p: Seq<char>) -> Option<u32> {
    match spec_parse_u64(p) {
        Some(v) => if v <= u32::MAX { Some(v as u32) } else { None },
        None => None,
    }
}

/// What `u8::from_str` accepts.
pub open spec fn spec_parse_u8(p: Seq<char>) -> Option<u8> {
    match spec_parse_u64(p) {
        Some(v) => if v <= 255 { Some(v as u8) } else { None },
        None => None,
    }
}

fn parse_u32_chars(p: &Vec<char>) -> (r: Option<u32>)
    ensures
        r == spec_parse_u32(p@),
{
    match parse_u64_chars(p) {
        Some(v) => if v <= 0xFFFF_FFFF { Some(v as u32) } else { None },
        None => None,
    }
}

fn parse_u8_chars(p: &Vec<char>) -> (r: Option<u8>)
    ensures
        r == spec_parse_u8(p@),
{
    match parse_u64_chars(p) {
        Some(v) => if v <= 255 { Some(v as u8) } else { None },
        None => None,
    }
}

// ---------------------------------------------------------------- IPv4

/// One dotted-decimal octet as `Ipv4Addr::from_str` accepts it: one to three
/// digits, no leading zero, at most 255.
pub open spec fn spec_octet(p: Seq<char>) -> Option<int> {
    if 1 <= p.len() <= 3 && (forall|i: int| 0 <= i < p.len() ==> is_digit(#[trigger] p[i]))
        && (p.len() == 1 || p[0] != '0') && digits_value(p) <= 255 {
        Some(digits_value(p) as int)
    } else {
        None
    }
}

/// A dotted-decimal IPv4 address as a `u32` (first octet highest).
pub open spec fn spec_parse_ipv4(s: Seq<char>) -> Option<u32> {
    let ps = split_on(s, '.');
    if ps.len() != 4 {
        None
    } else {
        match (spec_octet(ps[0]), spec_octet(ps[1]), spec_octet(ps[2]), spec_octet(ps[3])) {
            (Some(a), Some(b), Some(c), Some(d)) => Some((a * 16777216 + b * 65536 + c * 256 + d) as u32),
            _ => None,
        }
    }
}

/// An address in dotted-decimal form, as `Ipv4Addr` displays it.
pub open spec fn spec_format_ipv4(x: u32) -> Seq<char> {
    spec_decimal((x / 16777216) as nat) + "."@ + spec_decimal(((x / 65536) % 256) as nat) + "."@
        + spec_decimal(((x / 256) % 256) as nat) + "."@ + spec_decimal((x % 256) as nat)
}

/// The network address of `addr` under a prefix of `len` bits (1 to 31).
pub open spec fn network_of(addr: u32, len: u8) -> u32 {
    addr & (u32::MAX << ((32 - len) as u32))
}

/// The subnet prefix `network/len` of `addr`; a length outside 1..=31 is refused.
pub open spec fn spec_ipv4_prefix(addr: u32, len: u8) -> Result<Seq<char>, RouteError> {
    if len == 0 || len >= 32 {
        Err(RouteError::PrefixLengthOutOfRange)
    } else {
        Ok(spec_format_ipv4(network_of(addr, len)) + "/"@ + spec_decimal(len as nat))
    }
}

/// One octet of a piece.
fn parse_octet(p: &Vec<char>) -> (r: Option<u32>)
    ensures
        match r {
            Some(v) => spec_octet(p@) == Some(v as int),
            None => spec_octet(p@) is None,
        },
{
    if p.len() < 1 || p.len() > 3 {
        return None;
    }
    let mut i: usize = 0;
    while i < p.len()
        invariant
            i <= p@.len(),
            forall|j: int| 0 <= j < i ==> is_digit(#[trigger] p@[j]),
        decreases p@.len() - i,
    {
        if !('0' <= p[i] && p[i] <= '9') {
            assert(!is_digit(p@[i as int]));
            return None;
        }
        i = i + 1;
    }
    if p.len() > 1 && p[0] == '0' {
        return None;
    }
    match parse_u64_chars(p) {
        Some(v) => {
            if v <= 255 {
                Some(v as u32)
            } else {
                None
            }
        },
        None => None,
    }
}

/// Parses a dotted-decimal IPv4 address.
pub fn parse_ipv4(s: &Vec<char>) -> (r: Option<u32>)
    ensures
        r == spec_parse_ipv4(s@),
{
    let ps = split_chars(s, '.');
    if ps.len() != 4 {
        return None;
    }
    assert(pieces_view(ps@)[0] == ps@[0]@ && pieces_view(ps@)[1] == ps@[1]@);
    assert(pieces_view(ps@)[2] == ps@[2]@ && pieces_view(ps@)[3] == ps@[3]@);
    let a = match parse_octet(&ps[0]) {
        Some(v) => v,
        None => return None,
    };
    let b = match parse_octet(&ps[1]) {
        Some(v) => v,
        None => return None,
    };
    let c = match parse_octet(&ps[2]) {
        Some(v) => v,
        None => return None,
    };
    let d = match parse_octet(&ps[3]) {
        Some(v) => v,
        None => return None,
    };
    Some(a * 16777216 + b * 65536 + c * 256 + d)
}

/// Appends `x` in dotted-decimal form.
fn push_ipv4(s: &mut String, x: u32)
    ensures
        final(s)@ == old(s)@ + spec_format_ipv4(x),
{
    push_decimal(s, (x / 16777216) as u64);
    s.append(".");
    push_decimal(s, ((x / 65536) % 256) as u64);
    s.append(".");
    push_decimal(s, ((x / 256) % 256) as u64);
    s.append(".");
    push_decimal(s, (x % 256) as u64);
    assert(final(s)@ =~= old(s)@ + spec_format_ipv4(x));
}

/// The subnet prefix `network/len` of an address, such as `192.168.50.0/24`
/// for `192.168.50.123` and 24; a length outside 1..=31 is refused.
pub fn ipv4_prefix(address: u32, prefix_length: u8) -> (r: Result<String, RouteError>)
    ensures
        match r {
            Ok(p) => spec_ipv4_prefix(address, prefix_length) == Ok::<Seq<char>, RouteError>(p@),
            Err(e) => spec_ipv4_prefix(address, prefix_length) == Err::<Seq<char>, RouteError>(e),
        },
{
    if prefix_length == 0 || prefix_length >= 32 {
        return Err(RouteError::PrefixLengthOutOfRange);
    }
    let mask: u32 = 0xFFFF_FFFFu32 << (32 - prefix_length as u32);
    let network = address & mask;
    let mut s = String::new();
    push_ipv4(&mut s, network);
    s.append("/");
    push_decimal(&mut s, prefix_length as u64);
    Ok(s)
}

// ---------------------------------------------------------------- prefixes and answers

/// The index of the first `c` in `s`.
pub open spec fn first_index_of(s: Seq<char>, c: char, i: int) -> Option<int>
    decreases s.len() - i,
{
    if i < 0 || i >= s.len() {
        None
    } else if s[i] == c {
        Some(i)
    } else {
        first_index_of(s, c, i + 1)
    }
}

/// Whether a recorded prefix is accepted: `address/len` whose address is the
/// network address, written exactly as `ipv4_prefix` writes it.
pub open spec fn spec_validate_prefix(v: Seq<char>) -> Result<(), RouteError> {
    match first_index_of(v, '/', 0) {
        None => Err(RouteError::InvalidRoutePrefix),
        Some(k) => match spec_parse_ipv4(v.subrange(0, k)) {
            None => Err(RouteError::InvalidRouteAddress),
            Some(a) => match spec_parse_u8(v.subrange(k + 1, v.len() as int)) {
                None => Err(RouteError::InvalidRoutePrefixLength),
                Some(n) => match spec_ipv4_prefix(a, n) {
                    Err(e) => Err(e),
                    Ok(norm) => if norm == v { Ok(()) } else { Err(RouteError::NotNetworkAddress) },
                },
            },
        },
    }
}

proof fn lemma_first_index_bounds(s: Seq<char>, c: char, i: int)
    ensures
        first_index_of(s, c, i) matches Some(k) ==> 0 <= i <= k < s.len() && s[k] == c,
    decreases s.len() - i,
{
    if 0 <= i < s.len() && s[i] != c {
        lemma_first_index_bounds(s, c, i + 1);
    }
}

/// The piece `s[a..b]`.
fn piece(s: &Vec<char>, a: usize, b: usize) -> (r: Vec<char>)
    requires
        a <= b <= s@.len(),
    ensures
        r@ == s@.subrange(a as int, b as int),
{
    let mut r: Vec<char> = Vec::new();
    let mut k = a;
    while k < b
        invariant
            a <= k <= b <= s@.len(),
            r@ =~= s@.subrange(a as int, k as int),
        decreases b - k,
    {
        r.push(s[k]);
        k = k + 1;
    }
    r
}

/// Checks a recorded prefix.
pub fn validate_prefix(value: &str) -> (r: Result<&str, RouteError>)
    ensures
        match r {
            Ok(v) => v@ == value@ && spec_validate_prefix(value@) == Ok::<(), RouteError>(()),
            Err(e) => spec_validate_prefix(value@) == Err::<(), RouteError>(e),
        },
{
    let cs = chars_of(value);
    let mut k: usize = 0;
    while k < cs.len() && cs[k] != '/'
        invariant
            cs@ == value@,
            k <= cs@.len(),
            first_index_of(value@, '/', 0) == first_index_of(value@, '/', k as int),
        decreases cs@.len() - k,
    {
        k = k + 1;
    }
    if k >= cs.len() {
        return Err(RouteError::InvalidRoutePrefix);
    }
    let addr_part = piece(&cs, 0, k);
    let len_part = piece(&cs, k + 1, cs.len());
    let address = match parse_ipv4(&addr_part) {
        Some(a) => a,
        None => return Err(RouteError::InvalidRouteAddress),
    };
    let n = match parse_u8_chars(&len_part) {
        Some(n) => n,
        None => return Err(RouteError::InvalidRoutePrefixLength),
    };
    let normalized = match ipv4_prefix(address, n) {
        Ok(p) => p,
        Err(e) => return Err(e),
    };
    if !crate::infra::text::str_eq(normalized.as_str(), value) {
        return Err(RouteError::NotNetworkAddress);
    }
    Ok(value)
}

/// What the adapter query's answer line `index|address|prefix_length` gives:
/// the interface index and the subnet prefix.
pub open spec fn spec_parse_wifi_subnet(line: Seq<char>) -> Result<(u32, Seq<char>), RouteError> {
    let f = split_on(line, '|');
    match spec_parse_u32(f[0]) {
        None => Err(RouteError::InvalidIndex),
        Some(idx) => if f.len() < 2 {
            Err(RouteError::MissingAddress)
        } else {
            match spec_parse_ipv4(f[1]) {
                None => Err(RouteError::InvalidAddress),
                Some(a) => if f.len() < 3 {
                    Err(RouteError::MissingPrefixLength)
                } else {
                    match spec_parse_u8(f[2]) {
                        None => Err(RouteError::InvalidPrefixLength),
                        Some(n) => if f.len() > 3 {
                            Err(RouteError::ExtraField)
                        } else {
                            match spec_ipv4_prefix(a, n) {
                                Err(e) => Err(e),
                                Ok(p) => Ok((idx, p)),
                            }
                        },
                    }
                },
            }
        },
    }
}

/// Reads the adapter query's answer line `index|address|prefix_length`.
pub fn parse_wifi_subnet(line: &str) -> (r: Result<WifiSubnet, RouteError>)
    ensures
        match r {
            Ok(w) => spec_parse_wifi_subnet(line@) == Ok::<(u32, Seq<char>), RouteError>((w.interface_index, w.prefix@)),
            Err(e) => spec_parse_wifi_subnet(line@) == Err::<(u32, Seq<char>), RouteError>(e),
        },
{
    let cs = chars_of(line);
    let f = split_chars(&cs, '|');
    proof {
        crate::infra::text::lemma_split_nonempty(line@, '|');
    }
    let ghost fv = pieces_view(f@);
    assert(fv[0] == f@[0]@);
    let interface_index = match parse_u32_chars(&f[0]) {
        Some(v) => v,
        None => return Err(RouteError::InvalidIndex),
    };
    if f.len() < 2 {
        return Err(RouteError::MissingAddress);
    }
    assert(fv[1] == f@[1]@);
    let address = match parse_ipv4(&f[1]) {
        Some(a) => a,
        None => return Err(RouteError::InvalidAddress),
    };
    if f.len() < 3 {
        return Err(RouteError::MissingPrefixLength);
    }
    assert(fv[2] == f@[2]@);
    let n = match parse_u8_chars(&f[2]) {
        Some(n) => n,
        None => return Err(RouteError::InvalidPrefixLength),
    };
    if f.len() > 3 {
        return Err(RouteError::ExtraField);
    }
    let prefix = match ipv4_prefix(address, n) {
        Ok(p) => p,
        Err(e) => return Err(e),
    };
    Ok(WifiSubnet { interface_index, prefix })
}

// ---------------------------------------------------------------- state file

/// The state file's text for a route.
pub open spec fn spec_format_state(idx: u32, prefix: Seq<char>) -> Seq<char> {
    "version=1\ninterface_index="@ + spec_decimal(idx as nat) + "\nprefix="@ + prefix + "\n"@
}

/// Writes the state file's text for a route.
pub fn format_state(state: &RouteState) -> (r: String)
    ensures
        r@ == spec_format_state(state.interface_index, state.prefix@),
{
    let mut s = String::from_str("version=1\ninterface_index=");
    push_decimal(&mut s, state.interface_index as u64);
    s.append("\nprefix=");
    s.append(state.prefix.as_str());
    s.append("\n");
    s
}

/// Reads the lines from `i` on: the last `interface_index=` and `prefix=`
/// lines win; other lines are ignored; an invalid value refuses the file.
pub open spec fn parse_state_lines(ls: Seq<Seq<char>>, i: int, idx: Option<u32>, prefix: Option<Seq<char>>) -> Result<(Option<u32>, Option<Seq<char>>), RouteError>
    decreases ls.len() - i,
{
    if i < 0 || i >= ls.len() {
        Ok((idx, prefix))
    } else if starts_with_chars(ls[i], "interface_index="@) {
        match spec_parse_u32(ls[i].skip(16)) {
            None => Err(RouteError::InvalidStateIndex),
            Some(v) => parse_state_lines(ls, i + 1, Some(v), prefix),
        }
    } else if starts_with_chars(ls[i], "prefix="@) {
        match spec_validate_prefix(ls[i].skip(7)) {
            Err(e) => Err(e),
            Ok(()) => parse_state_lines(ls, i + 1, idx, Some(ls[i].skip(7))),
        }
    } else {
        parse_state_lines(ls, i + 1, idx, prefix)
    }
}

/// The route a state file's text records.
pub open spec fn spec_parse_state(text: Seq<char>) -> Result<(u32, Seq<char>), RouteError> {
    match parse_state_lines(spec_lines(text), 0, None, None) {
        Err(e) => Err(e),
        Ok((Some(i), Some(p))) => Ok((i, p)),
        Ok(_) => Err(RouteError::MalformedStateFile),
    }
}

/// The string of characters `cs`.
fn string_of(cs: &Vec<char>) -> (r: String)
    ensures
        r@ == cs@,
{
    let mut s = String::new();
    let mut i: usize = 0;
    while i < cs.len()
        invariant
            i <= cs@.len(),
            s@ =~= cs@.take(i as int),
        decreases cs@.len() - i,
    {
        let one = crate::infra::text::char_string(cs[i]);
        s.append(one.as_str());
        i = i + 1;
    }
    assert(cs@.take(i as int) =~= cs@);
    s
}


/// `line` starts with `p` (a literal's characters).
fn line_starts_with(line: &Vec<char>, p: &str) -> (r: bool)
    ensures
        r == starts_with_chars(line@, p@),
{
    let pc = chars_of(p);
    crate::infra::text::starts_with(line, &pc)
}

/// Reads a state file's text.
pub fn parse_state(text: &str) -> (r: Result<RouteState, RouteError>)
    ensures
        match r {
            Ok(s) => spec_parse_state(text@) == Ok::<(u32, Seq<char>), RouteError>((s.interface_index, s.prefix@)),
            Err(e) => spec_parse_state(text@) == Err::<(u32, Seq<char>), RouteError>(e),
        },
{
    let ls = lines_of(text);
    let ghost lv = pieces_view(ls@);
    let mut idx: Option<u32> = None;
    let mut prefix: Option<String> = None;
    let mut i: usize = 0;
    proof {
        reveal_strlit("interface_index=");
        reveal_strlit("prefix=");
    }
    while i < ls.len()
        invariant
            lv == pieces_view(ls@),
            lv == spec_lines(text@),
            i <= ls@.len(),
            "interface_index="@.len() == 16,
            "prefix="@.len() == 7,
            parse_state_lines(lv, 0, None, None) == parse_state_lines(lv, i as int, idx, match prefix {
                Some(p) => Some(p@),
                None => None,
            }),
        decreases ls@.len() - i,
    {
        let line = &ls[i];
        assert(lv[i as int] == line@);
        if line_starts_with(line, "interface_index=") {
            let value = piece(line, 16, line.len());
            assert(value@ =~= line@.skip(16));
            match parse_u32_chars(&value) {
                Some(v) => idx = Some(v),
                None => return Err(RouteError::InvalidStateIndex),
            }
        } else if line_starts_with(line, "prefix=") {
            let value = piece(line, 7, line.len());
            assert(value@ =~= line@.skip(7));
            let vs = string_of(&value);
            match validate_prefix(vs.as_str()) {
                Ok(_) => {},
                Err(e) => return Err(e),
            }
            prefix = Some(vs);
        }
        i = i + 1;
    }
    match (idx, prefix) {
        (Some(interface_index), Some(prefix)) => Ok(RouteState { interface_index, prefix }),
        _ => Err(RouteError::MalformedStateFile),
    }
}

// ---------------------------------------------------------------- state text

/// What was found at the state file's place.
pub enum StateFile {
    /// There is no state file.
    Missing,
    /// The file exists but could not be read.
    Unreadable,
    /// The file's text.
    Text(String),
}

/// The message of an error, as the state line shows it (`path` is the state
/// file's path).
pub open spec fn error_message(e: RouteError, path: Seq<char>) -> Seq<char> {
    match e {
        RouteError::InvalidStateIndex => "路由状态中的接口索引无效"@,
        RouteError::InvalidRoutePrefix => "IPv4 路由前缀无效"@,
        RouteError::InvalidRouteAddress => "IPv4 路由地址无效"@,
        RouteError::InvalidRoutePrefixLength => "IPv4 路由前缀长度无效"@,
        RouteError::PrefixLengthOutOfRange => "Wi-Fi IPv4 前缀长度必须在 1 到 31 之间"@,
        RouteError::NotNetworkAddress => "IPv4 路由前缀必须是网络地址"@,
        RouteError::MalformedStateFile => "路由状态文件格式无效 "@ + path,
        RouteError::InvalidIndex => "Wi-Fi 接口索引无效"@,
        RouteError::MissingAddress => "Wi-Fi 接口查询结果缺少 IPv4 地址"@,
        RouteError::InvalidAddress => "Wi-Fi IPv4 地址无效"@,
        RouteError::MissingPrefixLength => "Wi-Fi 接口查询结果缺少前缀长度"@,
        RouteError::InvalidPrefixLength => "Wi-Fi IPv4 前缀长度无效"@,
        RouteError::ExtraField => "Wi-Fi 接口查询结果格式无效"@,
    }
}

/// The message of an error.
pub fn message(e: RouteError, path: &str) -> (r: String)
    ensures
        r@ == error_message(e, path@),
{
    match e {
        RouteError::InvalidStateIndex => String::from_str("路由状态中的接口索引无效"),
        RouteError::InvalidRoutePrefix => String::from_str("IPv4 路由前缀无效"),
        RouteError::InvalidRouteAddress => String::from_str("IPv4 路由地址无效"),
        RouteError::InvalidRoutePrefixLength => String::from_str("IPv4 路由前缀长度无效"),
        RouteError::PrefixLengthOutOfRange => String::from_str("Wi-Fi IPv4 前缀长度必须在 1 到 31 之间"),
        RouteError::NotNetworkAddress => String::from_str("IPv4 路由前缀必须是网络地址"),
        RouteError::MalformedStateFile => {
            let mut s = String::from_str("路由状态文件格式无效 ");
            s.append(path);
            s
        },
        RouteError::InvalidIndex => String::from_str("Wi-Fi 接口索引无效"),
        RouteError::MissingAddress => String::from_str("Wi-Fi 接口查询结果缺少 IPv4 地址"),
        RouteError::InvalidAddress => String::from_str("Wi-Fi IPv4 地址无效"),
        RouteError::MissingPrefixLength => String::from_str("Wi-Fi 接口查询结果缺少前缀长度"),
        RouteError::InvalidPrefixLength => String::from_str("Wi-Fi IPv4 前缀长度无效"),
        RouteError::ExtraField => String::from_str("Wi-Fi 接口查询结果格式无效"),
    }
}

/// The state line for the status view.
pub open spec fn spec_state(path: Seq<char>, file: StateFile) -> Seq<char> {
    match file {
        StateFile::Missing => "未配置"@,
        StateFile::Unreadable => "状态不可读（读取路由状态文件失败 "@ + path + "）"@,
        StateFile::Text(t) => match spec_parse_state(t@) {
            Ok((idx, prefix)) => "已固定 Wi-Fi 本地路由（"@ + prefix + "，接口 "@ + spec_decimal(idx as nat) + "）"@,
            Err(e) => "状态不可读（"@ + error_message(e, path) + "）"@,
        },
    }
}

/// The Wi-Fi route's state line, from what was found at the state file's
/// place (`path`).
pub fn state(path: &str, file: StateFile) -> (r: String)
    ensures
        r@ == spec_state(path@, file),
{
    match file {
        StateFile::Missing => String::from_str("未配置"),
        StateFile::Unreadable => {
            let mut s = String::from_str("状态不可读（读取路由状态文件失败 ");
            s.append(path);
            s.append("）");
            s
        },
        StateFile::Text(t) => match parse_state(t.as_str()) {
            Ok(route) => {
                let mut s = String::from_str("已固定 Wi-Fi 本地路由（");
                s.append(route.prefix.as_str());
                s.append("，接口 ");
                push_decimal(&mut s, route.interface_index as u64);
                s.append("）");
                s
            },
            Err(e) => {
                let mut s = String::from_str("状态不可读（");
                let m = message(e, path);
                s.append(m.as_str());
                s.append("）");
                s
            },
        },
    }
}

// ---------------------------------------------------------------- PowerShell

/// The query for the Wi-Fi adapter to pin: the physical, connected IEEE 802.11
/// adapter (IfType 71) with a preferred IPv4 address (not loopback, not
/// link-local, prefix length 1 to 31) and the lowest interface metric, answered
/// as `index|address|prefix_length`.
pub const DISCOVER_SCRIPT: &'static str = "
$wifi = Get-NetAdapter -Physical -ErrorAction Stop |
    Where-Object {
        $interfaceType = if ($null -ne $_.InterfaceType) { [int]$_.InterfaceType } else { [int]$_.ifType }
        $_.Status -eq 'Up' -and $interfaceType -eq 71
    } |
    ForEach-Object {
        $adapter = $_
        $ip = Get-NetIPAddress -InterfaceIndex $adapter.ifIndex -AddressFamily IPv4 -ErrorAction SilentlyContinue |
            Where-Object {
                $_.IPAddress -ne '127.0.0.1' -and
                -not $_.IPAddress.StartsWith('169.254.') -and
                $_.PrefixLength -gt 0 -and $_.PrefixLength -lt 32 -and
                $_.AddressState -eq 'Preferred'
            } |
            Select-Object -First 1
        if ($null -ne $ip) {
            $metric = (Get-NetIPInterface -InterfaceIndex $adapter.ifIndex -AddressFamily IPv4 -ErrorAction Stop).InterfaceMetric
            [PSCustomObject]@{ Index = [int]$adapter.ifIndex; Address = $ip.IPAddress; Prefix = [int]$ip.PrefixLength; Metric = [int]$metric }
        }
    } |
    Sort-Object Metric, Index |
    Select-Object -First 1
if ($null -ne $wifi) { '{0}|{1}|{2}' -f $wifi.Index, $wifi.Address, $wifi.Prefix }
";

/// The first line of `ls` from `i` on that is not blank, trimmed.
pub open spec fn first_answer_from(ls: Seq<Seq<char>>, i: int) -> Option<Seq<char>>
    decreases ls.len() - i,
{
    if i < 0 || i >= ls.len() {
        None
    } else if spec_trim(ls[i]).len() > 0 {
        Some(spec_trim(ls[i]))
    } else {
        first_answer_from(ls, i + 1)
    }
}

/// The answer line of the adapter query: its first non-blank line, trimmed;
/// none when the query printed nothing.
pub fn answer_line(output: &str) -> (r: Option<String>)
    ensures
        match r {
            Some(l) => first_answer_from(spec_lines(output@), 0) == Some(l@),
            None => first_answer_from(spec_lines(output@), 0) is None,
        },
{
    let ls = lines_of(output);
    let ghost lv = pieces_view(ls@);
    let mut i: usize = 0;
    while i < ls.len()
        invariant
            lv == pieces_view(ls@),
            lv == spec_lines(output@),
            i <= ls@.len(),
            first_answer_from(lv, 0) == first_answer_from(lv, i as int),
        decreases ls@.len() - i,
    {
        let line = string_of(&ls[i]);
        assert(lv[i as int] == ls@[i as int]@);
        let t = trim(line.as_str());
        if t.unicode_len() > 0 {
            return Some(t.to_string());
        }
        i = i + 1;
    }
    None
}

/// The command that adds the route for `prefix` on interface `index` with
/// metric 1 unless it exists; it answers `created` or `existing`.
pub open spec fn spec_add_route_script(prefix: Seq<char>, index: u32) -> Seq<char> {
    let i = spec_decimal(index as nat);
    let m = spec_decimal(ROUTE_METRIC as nat);
    "$existing = Get-NetRoute -PolicyStore PersistentStore -DestinationPrefix '"@ + prefix + "' -InterfaceIndex "@ + i
        + " -NextHop '0.0.0.0' -ErrorAction SilentlyContinue | Where-Object { $_.RouteMetric -eq "@ + m
        + " } | Select-Object -First 1; if ($null -ne $existing) { 'existing' } else { New-NetRoute -PolicyStore PersistentStore -DestinationPrefix '"@
        + prefix + "' -InterfaceIndex "@ + i + " -NextHop '0.0.0.0' -RouteMetric "@ + m
        + " -ErrorAction Stop | Out-Null; 'created' }"@
}

/// The command that adds the route of `route`.
pub fn add_route_script(route: &WifiSubnet) -> (r: String)
    ensures
        r@ == spec_add_route_script(route.prefix@, route.interface_index),
{
    let mut s = String::from_str("$existing = Get-NetRoute -PolicyStore PersistentStore -DestinationPrefix '");
    s.append(route.prefix.as_str());
    s.append("' -InterfaceIndex ");
    push_decimal(&mut s, route.interface_index as u64);
    s.append(" -NextHop '0.0.0.0' -ErrorAction SilentlyContinue | Where-Object { $_.RouteMetric -eq ");
    push_decimal(&mut s, ROUTE_METRIC as u64);
    s.append(" } | Select-Object -First 1; if ($null -ne $existing) { 'existing' } else { New-NetRoute -PolicyStore PersistentStore -DestinationPrefix '");
    s.append(route.prefix.as_str());
    s.append("' -InterfaceIndex ");
    push_decimal(&mut s, route.interface_index as u64);
    s.append(" -NextHop '0.0.0.0' -RouteMetric ");
    push_decimal(&mut s, ROUTE_METRIC as u64);
    s.append(" -ErrorAction Stop | Out-Null; 'created' }");
    s
}

/// What the add command's answer means: `Ok(true)` when it created the
/// route, `Ok(false)` when the route existed, else the error to report.
pub open spec fn spec_add_route_result(output: Seq<char>) -> Result<bool, Seq<char>> {
    let t = spec_trim(output);
    if t == "created"@ {
        Ok(true)
    } else if t == "existing"@ {
        Ok(false)
    } else {
        Err("添加 Wi-Fi 本地路由未返回预期结果："@ + t)
    }
}

/// Reads the add command's answer.
pub fn add_route_result(output: &str) -> (r: Result<bool, String>)
    ensures
        match r {
            Ok(b) => spec_add_route_result(output@) == Ok::<bool, Seq<char>>(b),
            Err(m) => spec_add_route_result(output@) == Err::<bool, Seq<char>>(m@),
        },
{
    let t = trim(output);
    if crate::infra::text::str_eq(t, "created") {
        Ok(true)
    } else if crate::infra::text::str_eq(t, "existing") {
        Ok(false)
    } else {
        let mut m = String::from_str("添加 Wi-Fi 本地路由未返回预期结果：");
        m.append(t);
        Err(m)
    }
}

/// The command that removes the recorded route (metric 1) of `route`.
pub open spec fn spec_remove_route_script(prefix: Seq<char>, index: u32) -> Seq<char> {
    "Get-NetRoute -PolicyStore PersistentStore -DestinationPrefix '"@ + prefix + "' -InterfaceIndex "@
        + spec_decimal(index as nat) + " -NextHop '0.0.0.0' -ErrorAction SilentlyContinue | Where-Object { $_.RouteMetric -eq "@
        + spec_decimal(ROUTE_METRIC as nat) + " } | Remove-NetRoute -PolicyStore PersistentStore -Confirm:$false -ErrorAction Stop"@
}

/// The command that removes the route of `route`.
pub fn remove_route_script(route: &RouteState) -> (r: String)
    ensures
        r@ == spec_remove_route_script(route.prefix@, route.interface_index),
{
    let mut s = String::from_str("Get-NetRoute -PolicyStore PersistentStore -DestinationPrefix '");
    s.append(route.prefix.as_str());
    s.append("' -InterfaceIndex ");
    push_decimal(&mut s, route.interface_index as u64);
    s.append(" -NextHop '0.0.0.0' -ErrorAction SilentlyContinue | Where-Object { $_.RouteMetric -eq ");
    push_decimal(&mut s, ROUTE_METRIC as u64);
    s.append(" } | Remove-NetRoute -PolicyStore PersistentStore -Confirm:$false -ErrorAction Stop");
    s
}

/// The recorded route is the one to pin: same interface and prefix.
pub fn same_route(recorded: &RouteState, wanted: &WifiSubnet) -> (r: bool)
    ensures
        r == (recorded.interface_index == wanted.interface_index && recorded.prefix@ == wanted.prefix@),
{
    recorded.interface_index == wanted.interface_index && crate::infra::text::str_eq(
        recorded.prefix.as_str(),
        wanted.prefix.as_str(),
    )
}

/// The state the tool records for a route it created.
pub fn recorded_state(route: &WifiSubnet) -> (r: RouteState)
    ensures
        r.interface_index == route.interface_index,
        r.prefix@ == route.prefix@,
{
    RouteState { interface_index: route.interface_index, prefix: String::from_str(route.prefix.as_str()) }
}

// ---------------------------------------------------------------- laws

/// A decimal holds no character but digits.
proof fn lemma_decimal_free(n: nat, c: char)
    requires
        !is_digit(c),
    ensures
        free_of(spec_decimal(n), c),
{
    lemma_decimal(n);
}

/// One octet written in decimal is read back as itself.
proof fn lemma_octet_roundtrip(n: nat)
    requires
        n < 256,
    ensures
        spec_octet(spec_decimal(n)) == Some(n as int),
{
    lemma_decimal(n);
}

/// The dotted form of an address holds digits and dots only.
pub open spec fn dotted_chars(s: Seq<char>) -> bool {
    forall|i: int| 0 <= i < s.len() ==> is_digit(#[trigger] s[i]) || s[i] == '.'
}

/// An address written in dotted-decimal form is read back as itself, and
/// the text is made of digits and dots.
pub proof fn lemma_ipv4_roundtrip(x: u32)
    ensures
        spec_parse_ipv4(spec_format_ipv4(x)) == Some(x),
        dotted_chars(spec_format_ipv4(x)),
{
    let a: nat = (x / 16777216) as nat;
    let b: nat = ((x / 65536) % 256) as nat;
    let c: nat = ((x / 256) % 256) as nat;
    let d: nat = (x % 256) as nat;
    assert(x / 16777216 < 256) by (bit_vector);
    let da = spec_decimal(a);
    let db = spec_decimal(b);
    let dc = spec_decimal(c);
    let dd = spec_decimal(d);
    reveal_strlit(".");
    let dot = seq!['.'];
    assert("."@ == dot);
    let s1 = da + dot + db;
    let s2 = s1 + dot + dc;
    let s3 = s2 + dot + dd;
    assert(spec_format_ipv4(x) == s3);
    lemma_decimal_free(a, '.');
    lemma_decimal_free(b, '.');
    lemma_decimal_free(c, '.');
    lemma_decimal_free(d, '.');
    lemma_split_single(da, '.');
    lemma_split_sep(da, '.', db);
    lemma_split_sep(s1, '.', dc);
    lemma_split_sep(s2, '.', dd);
    let ps = split_on(s3, '.');
    assert(ps == seq![da, db, dc, dd]);
    lemma_octet_roundtrip(a);
    lemma_octet_roundtrip(b);
    lemma_octet_roundtrip(c);
    lemma_octet_roundtrip(d);
    assert(x == (x / 16777216) * 16777216 + ((x / 65536) % 256) * 65536 + ((x / 256) % 256) * 256 + x % 256)
        by (bit_vector);
    lemma_decimal(a);
    lemma_decimal(b);
    lemma_decimal(c);
    lemma_decimal(d);
    assert forall|i: int| 0 <= i < s3.len() implies is_digit(#[trigger] s3[i]) || s3[i] == '.' by {
        if i < s2.len() {
            assert(s3[i] == s2[i]);
            if i < s1.len() {
                assert(s2[i] == s1[i]);
                if i < da.len() {
                    assert(s1[i] == da[i]);
                } else if i > da.len() {
                    assert(s1[i] == db[i - da.len() - 1]);
                }
            } else if i > s1.len() {
                assert(s2[i] == dc[i - s1.len() - 1]);
            }
        } else if i > s2.len() {
            assert(s3[i] == dd[i - s2.len() - 1]);
        }
    }
}

/// The first `c` at or after `i` is at `k` when nothing in between is `c`.
proof fn lemma_first_index_at(s: Seq<char>, c: char, i: int, k: int)
    requires
        0 <= i <= k < s.len(),
        s[k] == c,
        forall|j: int| i <= j < k ==> s[j] != c,
    ensures
        first_index_of(s, c, i) == Some(k),
    decreases k - i,
{
    if i < k {
        lemma_first_index_at(s, c, i + 1, k);
    }
}

/// The characters a subnet prefix is written with.
pub open spec fn prefix_chars(s: Seq<char>) -> bool {
    forall|i: int| 0 <= i < s.len() ==> is_digit(#[trigger] s[i]) || s[i] == '.' || s[i] == '/'
}

/// A subnet prefix that `ipv4_prefix` writes is accepted as a recorded
/// prefix, and is made of digits, dots and one slash.
pub proof fn lemma_prefix_validates(address: u32, prefix_length: u8)
    requires
        1 <= prefix_length <= 31,
    ensures
        spec_ipv4_prefix(address, prefix_length) matches Ok(p) && spec_validate_prefix(p) == Ok::<(), RouteError>(())
            && prefix_chars(p) && p.len() > 0,
{
    let net = network_of(address, prefix_length);
    let m: u32 = u32::MAX << ((32 - prefix_length) as u32);
    assert(net == address & m);
    assert((address & m) & m == address & m) by (bit_vector);
    assert(network_of(net, prefix_length) == net);
    let f = spec_format_ipv4(net);
    let dl = spec_decimal(prefix_length as nat);
    reveal_strlit("/");
    let slash = seq!['/'];
    assert("/"@ == slash);
    let p = f + slash + dl;
    assert(spec_ipv4_prefix(address, prefix_length) == Ok::<Seq<char>, RouteError>(p));
    lemma_ipv4_roundtrip(net);
    lemma_decimal(prefix_length as nat);
    let k = f.len() as int;
    assert forall|j: int| 0 <= j < k implies p[j] != '/' by {
        assert(p[j] == f[j]);
    }
    assert(p[k] == '/');
    lemma_first_index_at(p, '/', 0, k);
    assert(p.subrange(0, k) =~= f);
    assert(p.subrange(k + 1, p.len() as int) =~= dl);
    lemma_parse_decimal(prefix_length as u64);
    assert(spec_parse_u8(dl) == Some(prefix_length));
    assert(spec_ipv4_prefix(net, prefix_length) == Ok::<Seq<char>, RouteError>(p));
    assert forall|i: int| 0 <= i < p.len() implies is_digit(#[trigger] p[i]) || p[i] == '.' || p[i] == '/' by {
        if i < k {
            assert(p[i] == f[i]);
        } else if i > k {
            assert(p[i] == dl[i - k - 1]);
        }
    }
}

/// A recorded prefix that is accepted is written as `ipv4_prefix` writes it.
proof fn lemma_valid_prefix_chars(p: Seq<char>)
    requires
        spec_validate_prefix(p) == Ok::<(), RouteError>(()),
    ensures
        prefix_chars(p),
        p.len() > 0,
{
    let k = first_index_of(p, '/', 0)->Some_0;
    let a = spec_parse_ipv4(p.subrange(0, k))->Some_0;
    let n = spec_parse_u8(p.subrange(k + 1, p.len() as int))->Some_0;
    lemma_prefix_validates(a, n);
}

/// The lines of the state file's text.
proof fn lemma_state_lines(interface_index: u32, prefix: Seq<char>)
    requires
        prefix_chars(prefix),
        prefix.len() > 0,
    ensures
        spec_lines(spec_format_state(interface_index, prefix)) == seq![
            "version=1"@,
            "interface_index="@ + spec_decimal(interface_index as nat),
            "prefix="@ + prefix,
        ],
{
    let di = spec_decimal(interface_index as nat);
    lemma_decimal(interface_index as nat);
    let nl = seq!['\n'];
    let l0 = "version=1"@;
    let l1 = "interface_index="@ + di;
    let l2 = "prefix="@ + prefix;
    let empty = Seq::<char>::empty();
    let t = spec_format_state(interface_index, prefix);
    assert(t =~= l0 + nl + l1 + nl + l2 + nl + empty) by {
        reveal_strlit("version=1\ninterface_index=");
        reveal_strlit("\nprefix=");
        reveal_strlit("\n");
        reveal_strlit("version=1");
        reveal_strlit("interface_index=");
        reveal_strlit("prefix=");
    }
    assert(free_of(l0, '\n') && l0.last() != '\r') by {
        reveal_strlit("version=1");
    }
    assert(free_of(l1, '\n') && l1.last() != '\r') by {
        reveal_strlit("interface_index=");
        assert forall|i: int| 0 <= i < l1.len() implies l1[i] != '\n' by {
            if i >= 16 {
                assert(l1[i] == di[i - 16]);
            }
        }
        assert(l1.last() == di.last());
    }
    assert(free_of(l2, '\n') && l2.last() != '\r') by {
        reveal_strlit("prefix=");
        assert forall|i: int| 0 <= i < l2.len() implies l2[i] != '\n' by {
            if i >= 7 {
                assert(l2[i] == prefix[i - 7]);
            }
        }
        assert(l2.last() == prefix.last());
    }
    lemma_split_single(l0, '\n');
    lemma_split_sep(l0, '\n', l1);
    lemma_split_sep(l0 + nl + l1, '\n', l2);
    lemma_split_sep(l0 + nl + l1 + nl + l2, '\n', empty);
    let parts = split_on(t, '\n');
    assert(parts == seq![l0, l1, l2, empty]);
    assert(strip_cr(l0) == l0);
    assert(strip_cr(l1) == l1);
    assert(strip_cr(l2) == l2);
    assert(spec_lines(t) =~= seq![l0, l1, l2]);
}

/// The text of the state file for a route reads back as that route, for
/// every prefix that a state file may record.
pub proof fn lemma_state_roundtrip(interface_index: u32, prefix: Seq<char>)
    requires
        spec_validate_prefix(prefix) == Ok::<(), RouteError>(()),
    ensures
        spec_parse_state(spec_format_state(interface_index, prefix)) == Ok::<(u32, Seq<char>), RouteError>(
            (interface_index, prefix),
        ),
{
    lemma_valid_prefix_chars(prefix);
    lemma_state_lines(interface_index, prefix);
    let di = spec_decimal(interface_index as nat);
    let l0 = "version=1"@;
    let l1 = "interface_index="@ + di;
    let l2 = "prefix="@ + prefix;
    let ls = spec_lines(spec_format_state(interface_index, prefix));
    assert(ls[0] == l0 && ls[1] == l1 && ls[2] == l2 && ls.len() == 3);
    reveal_strlit("version=1");
    reveal_strlit("interface_index=");
    reveal_strlit("prefix=");
    assert(!starts_with_chars(l0, "interface_index="@));
    assert(!starts_with_chars(l0, "prefix="@)) by {
        assert(l0.subrange(0, 7)[0] == 'v');
    }
    assert(starts_with_chars(l1, "interface_index="@)) by {
        assert(l1.subrange(0, 16) =~= "interface_index="@);
    }
    assert(l1.skip(16) =~= di);
    lemma_parse_decimal(interface_index as u64);
    assert(spec_parse_u32(di) == Some(interface_index));
    assert(!starts_with_chars(l2, "interface_index="@)) by {
        if l2.len() >= 16 {
            assert(l2.subrange(0, 16)[0] == 'p');
        }
    }
    assert(starts_with_chars(l2, "prefix="@)) by {
        assert(l2.subrange(0, 7) =~= "prefix="@);
    }
    assert(l2.skip(7) =~= prefix);
    assert(parse_state_lines(ls, 2, Some(interface_index), None) == parse_state_lines(ls, 3, Some(interface_index), Some(prefix)));
    assert(parse_state_lines(ls, 1, None, None) == parse_state_lines(ls, 2, Some(interface_index), None));
    assert(parse_state_lines(ls, 0, None, None) == parse_state_lines(ls, 1, None, None));
}

} // verus!
