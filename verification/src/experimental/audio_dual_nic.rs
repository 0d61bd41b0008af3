//! Experimental check of the wired + Wi-Fi same-subnet audio case.
//!
//! With a wired and a Wi-Fi adapter on the same IPv4 subnet, Windows sends
//! from the adapter with the lower metric (usually wired). In wireless
//! broadcast mode the discovery identity is the Wi-Fi one, so the media
//! session must be pinned to Wi-Fi by the local Wi-Fi route; in wired mode
//! that route must be absent. The state texts are read by the caller.

use vstd::prelude::*;
use vstd::string::StringExecFns;
use crate::infra::text::{concat2, contains_chars, str_contains};

verus! {

/// A dual-adapter diagnosis.
pub struct DualNicDiagnosis {
    /// Number of wired adapters.
    pub wired_adapters: usize,
    /// Number of Wi-Fi adapters.
    pub wifi_adapters: usize,
    /// A wired and a Wi-Fi adapter share a subnet.
    pub same_subnet_conflict: bool,
    /// The broadcast mode of the patched files.
    pub broadcast_mode: Option<String>,
    /// The Wi-Fi route is in place.
    pub wifi_route_active: bool,
    /// Discovery identity and media route use the same adapter.
    pub consistent: bool,
}

pub const DIAG_TITLE: &'static str = "== 双网卡音频诊断 ==";
pub const DIAG_NO_FILES: &'static str = "  未找到 MiPCAudio.exe / idmruntime.dll，请先确认版本目录。";
pub const DIAG_MODE: &'static str = "  当前广播模式: ";
pub const DIAG_ROUTE: &'static str = "  Wi-Fi 优先路由: ";
pub const DIAG_CONSISTENT: &'static str = "  ✓ 发现身份与媒体出站一致。";
pub const DIAG_WIFI_WITHOUT_ROUTE: &'static str = "  ✗ 无线广播模式但 Wi-Fi 路由缺失 —— 同网段时媒体可能从有线出站，手机将拒绝。";
pub const DIAG_WIRED_WITH_ROUTE: &'static str = "  ✗ 有线广播模式但 Wi-Fi 路由仍存在 —— 发现走有线、媒体走 Wi-Fi，手机将拒绝。";
pub const DIAG_UNKNOWN: &'static str = "  ? 无法判断广播模式，请手动检查。";
pub const DIAG_ADVICE: &'static str = "  建议: ";
pub const ADVICE_NONE: &'static str = "当前配置正确，无需操作。";
pub const ADVICE_ADD: &'static str = "运行「实验性修复」以添加 Wi-Fi 优先路由。";
pub const ADVICE_REMOVE: &'static str = "运行「实验性修复」以移除 Wi-Fi 路由。";

/// The patched files report wireless broadcast.
pub open spec fn mode_is_wifi(state: Seq<char>) -> bool {
    contains_chars(state, "无线"@) || contains_chars(state, "WiFi"@)
}

/// The patched files report wired broadcast.
pub open spec fn mode_is_lan(state: Seq<char>) -> bool {
    contains_chars(state, "有线"@) || contains_chars(state, "LAN"@)
}

/// The Wi-Fi route is in place (its state is not "not configured").
pub open spec fn route_active(route_state: Seq<char>) -> bool {
    !contains_chars(route_state, "未配置"@)
}

/// Discovery and media leave through the same adapter: wireless mode with
/// the route, or wired mode without it.
pub open spec fn consistent(state: Seq<char>, route_state: Seq<char>) -> bool {
    (mode_is_wifi(state) && route_active(route_state)) || (mode_is_lan(state) && !route_active(route_state))
}

/// The verdict line.
pub open spec fn verdict_line(state: Seq<char>, route_state: Seq<char>) -> Seq<char> {
    if consistent(state, route_state) {
        DIAG_CONSISTENT@
    } else if mode_is_wifi(state) {
        DIAG_WIFI_WITHOUT_ROUTE@
    } else if mode_is_lan(state) {
        DIAG_WIRED_WITH_ROUTE@
    } else {
        DIAG_UNKNOWN@
    }
}

/// The advice.
pub open spec fn advice(state: Seq<char>, route_state: Seq<char>) -> Seq<char> {
    if consistent(state, route_state) {
        ADVICE_NONE@
    } else if mode_is_wifi(state) {
        ADVICE_ADD@
    } else {
        ADVICE_REMOVE@
    }
}

/// The diagnosis lines for the states of the patched files (file, state) and
/// the Wi-Fi route state; the first file's state decides the mode.
pub open spec fn spec_diagnose(states: Seq<(Seq<char>, Seq<char>)>, route_state: Seq<char>) -> Seq<Seq<char>> {
    if states.len() == 0 {
        seq![DIAG_TITLE@, DIAG_NO_FILES@]
    } else {
        let st = states[0].1;
        seq![
            DIAG_TITLE@,
            DIAG_MODE@ + st,
            DIAG_ROUTE@ + route_state,
            verdict_line(st, route_state),
            DIAG_ADVICE@ + advice(st, route_state),
        ]
    }
}

/// The pairs as character sequences.
pub open spec fn states_view(states: Seq<(String, String)>) -> Seq<(Seq<char>, Seq<char>)> {
    states.map_values(|p: (String, String)| (p.0@, p.1@))
}

/// The lines as character sequences.
pub open spec fn lines_view(lines: Seq<String>) -> Seq<Seq<char>> {
    lines.map_values(|l: String| l@)
}

/// Diagnoses the dual-adapter state from the broadcast-mode states of the
/// patched files and the Wi-Fi route state.
pub fn diagnose(states: &Vec<(String, String)>, route_state: &str) -> (log: Vec<String>)
    ensures
        lines_view(log@) == spec_diagnose(states_view(states@), route_state@),
{
    let mut log: Vec<String> = Vec::new();
    log.push(String::from_str(DIAG_TITLE));
    if states.len() == 0 {
        log.push(String::from_str(DIAG_NO_FILES));
        assert(lines_view(log@) =~= spec_diagnose(states_view(states@), route_state@));
        return log;
    }
    let st = states[0].1.as_str();
    assert(states_view(states@)[0].1 == st@);
    let wifi = str_contains(st, "无线") || str_contains(st, "WiFi");
    let lan = str_contains(st, "有线") || str_contains(st, "LAN");
    log.push(concat2(DIAG_MODE, st));
    let active = !str_contains(route_state, "未配置");
    log.push(concat2(DIAG_ROUTE, route_state));
    let ok = (wifi && active) || (lan && !active);
    if ok {
        log.push(String::from_str(DIAG_CONSISTENT));
    } else if wifi {
        log.push(String::from_str(DIAG_WIFI_WITHOUT_ROUTE));
    } else if lan {
        log.push(String::from_str(DIAG_WIRED_WITH_ROUTE));
    } else {
        log.push(String::from_str(DIAG_UNKNOWN));
    }
    let adv = if ok { ADVICE_NONE } else if wifi { ADVICE_ADD } else { ADVICE_REMOVE };
    log.push(concat2(DIAG_ADVICE, adv));
    assert(lines_view(log@) =~= spec_diagnose(states_view(states@), route_state@));
    log
}

/// What the experimental fix does for the states of the patched files.
#[derive(Debug, Clone, Copy, PartialEq, Eq)]
pub enum FixAction {
    /// The patched files are missing; nothing to do.
    NoAudioFiles,
    /// Wireless broadcast: make sure the Wi-Fi route is in place.
    EnsureWifiRoute,
    /// Otherwise: remove the Wi-Fi route the tool created, if any.
    RemoveWifiRoute,
}

/// The action the experimental fix takes: wireless broadcast (by the first
/// file's state) keeps a Wi-Fi route, anything else removes it.
pub fn auto_fix(states: &Vec<(String, String)>) -> (a: FixAction)
    ensures
        states@.len() == 0 ==> a == FixAction::NoAudioFiles,
        states@.len() > 0 && mode_is_wifi(states@[0].1@) ==> a == FixAction::EnsureWifiRoute,
        states@.len() > 0 && !mode_is_wifi(states@[0].1@) ==> a == FixAction::RemoveWifiRoute,
{
    if states.len() == 0 {
        return FixAction::NoAudioFiles;
    }
    let st = states[0].1.as_str();
    if str_contains(st, "无线") || str_contains(st, "WiFi") {
        FixAction::EnsureWifiRoute
    } else {
        FixAction::RemoveWifiRoute
    }
}

} // verus!
