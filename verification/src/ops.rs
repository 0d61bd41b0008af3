//! Decisions behind the high-level operations of the command line and the
//! GUI: which product may be installed, which install root serves the
//! patches that need the full PC Manager, and where those patches may go.
//!
//! Finding roots, listing directories and resolving paths are done by the
//! caller; these functions decide on what it found.

use vstd::prelude::*;
use vstd::string::StringExecFns;
use crate::infra::text::{push_decimal, spec_decimal};
use crate::install::{latest_from, latest_version_index, names_view};
use crate::mipcaudio_lan;
use crate::pc_manager_installer::InstallerKind;

verus! {

/// Broadcast medium of audio casting, as the front ends offer it.
#[derive(Debug, Clone, Copy, PartialEq, Eq)]
pub enum BroadcastMode {
    Wireless,
    Wired,
}

impl BroadcastMode {
    /// The patch mode of the same medium.
    pub fn patch_mode(self) -> (m: mipcaudio_lan::BroadcastMode)
        ensures
            self == BroadcastMode::Wireless ==> m == mipcaudio_lan::BroadcastMode::Wireless,
            self == BroadcastMode::Wired ==> m == mipcaudio_lan::BroadcastMode::Wired,
    {
        match self {
            BroadcastMode::Wireless => mipcaudio_lan::BroadcastMode::Wireless,
            BroadcastMode::Wired => mipcaudio_lan::BroadcastMode::Wired,
        }
    }
}

/// Why an installer may not run: the other product is installed (at the given root).
#[derive(Debug, Clone, PartialEq, Eq)]
pub enum InstallBlocked {
    /// Interconnect is installed; PC Manager cannot be installed beside it.
    PcContinuityInstalled(String),
    /// PC Manager is installed; Interconnect cannot be installed beside it.
    PcManagerInstalled(String),
}

impl InstallBlocked {
    /// The text shown for the refusal.
    pub open spec fn spec_message(&self) -> Seq<char> {
        match self {
            InstallBlocked::PcContinuityInstalled(root) => "已安装小米互联 / 互联互通（"@ + root@
                + "），官方不支持与小米电脑管家同时安装"@,
            InstallBlocked::PcManagerInstalled(root) => "已安装小米电脑管家（"@ + root@
                + "），不支持与小米互联 / 互联互通同时安装"@,
        }
    }

    /// The text shown for the refusal.
    pub fn message(&self) -> (r: String)
        ensures
            r@ == self.spec_message(),
    {
        match self {
            InstallBlocked::PcContinuityInstalled(root) => {
                let mut s = String::from_str("已安装小米互联 / 互联互通（");
                s.append(root.as_str());
                s.append("），官方不支持与小米电脑管家同时安装");
                s
            },
            InstallBlocked::PcManagerInstalled(root) => {
                let mut s = String::from_str("已安装小米电脑管家（");
                s.append(root.as_str());
                s.append("），不支持与小米互联 / 互联互通同时安装");
                s
            },
        }
    }
}

/// Whether an installer of `kind` may run, given the install roots found:
/// the two products are never installed side by side, and each may be
/// reinstalled or upgraded over itself.
pub fn ensure_install_allowed(kind: InstallerKind, manager_root: Option<&str>, continuity_root: Option<&str>) -> (r: Result<(), InstallBlocked>)
    ensures
        match kind {
            InstallerKind::XiaomiPcManager => match continuity_root {
                Some(root) => r matches Err(InstallBlocked::PcContinuityInstalled(s)) && s@ == root@,
                None => r is Ok,
            },
            InstallerKind::PcContinuity => match manager_root {
                Some(root) => r matches Err(InstallBlocked::PcManagerInstalled(s)) && s@ == root@,
                None => r is Ok,
            },
        },
{
    match kind {
        InstallerKind::XiaomiPcManager => {
            if let Some(root) = continuity_root {
                return Err(InstallBlocked::PcContinuityInstalled(String::from_str(root)));
            }
        },
        InstallerKind::PcContinuity => {
            if let Some(root) = manager_root {
                return Err(InstallBlocked::PcManagerInstalled(String::from_str(root)));
            }
        },
    }
    Ok(())
}

/// Why the patches that need the full PC Manager have no target.
#[derive(Debug, Clone, PartialEq, Eq)]
pub enum FullFeatureError {
    /// Only Interconnect is installed, which supports only the region patch for now.
    PcContinuityOnly,
    /// PC Manager is not installed.
    NotInstalled,
    /// The PC Manager root (given) holds no version directory.
    NoVersionDir(String),
}

impl FullFeatureError {
    /// The text shown for the error.
    pub open spec fn spec_message(&self) -> Seq<char> {
        match self {
            FullFeatureError::PcContinuityOnly => "PcContinuity 暂时仅支持地区伪装，其他功能不可用"@,
            FullFeatureError::NotInstalled => "未找到 XiaomiPCManager 安装目录"@,
            FullFeatureError::NoVersionDir(root) => "在 "@ + root@ + " 下未找到任何版本目录"@,
        }
    }

    /// The text shown for the error.
    pub fn message(&self) -> (r: String)
        ensures
            r@ == self.spec_message(),
    {
        match self {
            FullFeatureError::PcContinuityOnly => String::from_str("PcContinuity 暂时仅支持地区伪装，其他功能不可用"),
            FullFeatureError::NotInstalled => String::from_str("未找到 XiaomiPCManager 安装目录"),
            FullFeatureError::NoVersionDir(root) => {
                let mut s = String::from_str("在 ");
                s.append(root.as_str());
                s.append(" 下未找到任何版本目录");
                s
            },
        }
    }
}

/// The version directory of PC Manager that the full-feature patches use:
/// among `manager_versions`, the names of the directories under the PC Manager
/// root, the one with the highest version. Without PC Manager, Interconnect
/// alone is refused as such.
pub fn resolve_full_version_dir_from_roots(
    manager_root: Option<&str>,
    continuity_root: Option<&str>,
    manager_versions: &Vec<String>,
) -> (r: Result<String, FullFeatureError>)
    ensures
        manager_root is Some ==> match latest_from(names_view(manager_versions@), 0, None) {
            Some(k) => r matches Ok(name) && name@ == manager_versions@[k]@,
            None => r matches Err(FullFeatureError::NoVersionDir(root)) && root@ == manager_root->Some_0@,
        },
        manager_root is None && continuity_root is Some ==> r == Err::<String, FullFeatureError>(FullFeatureError::PcContinuityOnly),
        manager_root is None && continuity_root is None ==> r == Err::<String, FullFeatureError>(FullFeatureError::NotInstalled),
{
    if let Some(root) = manager_root {
        return match latest_version_index(manager_versions) {
            Some(k) => {
                proof {
                    crate::install::lemma_latest_in_range(names_view(manager_versions@), 0, None);
                }
                Ok(manager_versions[k].clone())
            },
            None => Err(FullFeatureError::NoVersionDir(String::from_str(root))),
        };
    }
    if continuity_root.is_some() {
        return Err(FullFeatureError::PcContinuityOnly);
    }
    Err(FullFeatureError::NotInstalled)
}

/// Calls `std::path::Path::starts_with` on `path` and `base`.
///
/// Trusted: a path starts with itself. How paths split into components
/// depends on the platform, so nothing more is stated.
#[verifier::external_body]
fn path_starts_with(path: &str, base: &str) -> (r: bool)
    ensures
        path@ == base@ ==> r,
{
    std::path::Path::new(path).starts_with(std::path::Path::new(base))
}

/// The verdict on a full-feature target, given whether it lies inside the
/// Interconnect install root: inside is refused, outside is accepted.
pub fn full_feature_verdict(inside_continuity: bool) -> (r: Result<(), FullFeatureError>)
    ensures
        inside_continuity ==> r == Err::<(), FullFeatureError>(FullFeatureError::PcContinuityOnly),
        !inside_continuity ==> r is Ok,
{
    if inside_continuity {
        Err(FullFeatureError::PcContinuityOnly)
    } else {
        Ok(())
    }
}

/// Refuses a full-feature target inside the Interconnect install root
/// (both given in canonical form).
pub fn ensure_full_feature_path_supported(path: &str, continuity_root: Option<&str>) -> (r: Result<(), FullFeatureError>)
    ensures
        continuity_root is None ==> r is Ok,
        r matches Err(e) ==> e == FullFeatureError::PcContinuityOnly,
        continuity_root matches Some(root) && path@ == root@ ==> r is Err,
{
    match continuity_root {
        None => Ok(()),
        Some(root) => full_feature_verdict(path_starts_with(path, root)),
    }
}

/// The note shown after closing PC Manager's processes at start-up, when any
/// were closed.
pub fn close_all_on_startup(closed: usize) -> (r: Option<String>)
    ensures
        closed == 0 ==> r is None,
        closed > 0 ==> (r matches Some(s) && s@ == "已关闭 "@ + spec_decimal(closed as nat) + " 个小米电脑管家相关进程。"@),
{
    if closed == 0 {
        return None;
    }
    let mut s = String::from_str("已关闭 ");
    push_decimal(&mut s, closed as u64);
    s.append(" 个小米电脑管家相关进程。");
    Some(s)
}

/// What was found for the region patch under one install root.
pub enum LocaleProbe {
    /// The latest version directory (as shown), the DLL's path in it, and
    /// whether that file exists.
    Found { version_dir: String, dll_path: String, exists: bool },
    /// No version directory could be determined; the reason.
    Failed(String),
}

/// The DLL of the region patch.
pub const LOCALE_DLL: &'static str = "micont_rtm.dll";

/// The reason recorded for one root without a usable DLL.
pub open spec fn probe_error(p: LocaleProbe) -> Seq<char> {
    match p {
        LocaleProbe::Found { version_dir, .. } => "在 "@ + version_dir@ + " 中未找到 "@ + LOCALE_DLL@,
        LocaleProbe::Failed(e) => e@,
    }
}

/// The reasons of `probes[..n]`, joined by `；`.
pub open spec fn joined_errors(probes: Seq<LocaleProbe>, n: int) -> Seq<char>
    decreases n,
{
    if n <= 0 {
        Seq::empty()
    } else if n == 1 {
        probe_error(probes[0])
    } else {
        joined_errors(probes, n - 1) + "；"@ + probe_error(probes[n - 1])
    }
}

/// A probe that found an existing DLL.
pub open spec fn usable(p: LocaleProbe) -> bool {
    p matches LocaleProbe::Found { exists, .. } && exists
}

/// The DLL the region patch targets, from the probes of the install roots in
/// order (PC Manager first, then Interconnect): the first existing DLL; else
/// why none was found.
pub fn resolve_locale_dll_from_roots(probes: &Vec<LocaleProbe>) -> (r: Result<String, String>)
    ensures
        match r {
            Ok(path) => exists|i: int| 0 <= i < probes@.len() && usable(#[trigger] probes@[i])
                && (forall|j: int| 0 <= j < i ==> !usable(#[trigger] probes@[j]))
                && (probes@[i] matches LocaleProbe::Found { dll_path, .. } && path@ == dll_path@),
            Err(msg) => (forall|j: int| 0 <= j < probes@.len() ==> !usable(#[trigger] probes@[j])) && if probes@.len() == 0 {
                msg@ == "未找到 XiaomiPCManager 或 PcContinuity 安装目录"@
            } else {
                msg@ == "未找到可用的 "@ + LOCALE_DLL@ + "："@ + joined_errors(probes@, probes@.len() as int)
            },
        },
{
    let mut errors = String::new();
    let mut i: usize = 0;
    while i < probes.len()
        invariant
            i <= probes@.len(),
            forall|j: int| 0 <= j < i ==> !usable(#[trigger] probes@[j]),
            errors@ == joined_errors(probes@, i as int),
        decreases probes@.len() - i,
    {
        if i > 0 {
            errors.append("；");
        }
        match &probes[i] {
            LocaleProbe::Found { version_dir, dll_path, exists } => {
                if *exists {
                    return Ok(dll_path.clone());
                }
                errors.append("在 ");
                errors.append(version_dir.as_str());
                errors.append(" 中未找到 ");
                errors.append(LOCALE_DLL);
            },
            LocaleProbe::Failed(e) => {
                errors.append(e.as_str());
            },
        }
        i = i + 1;
    }
    if probes.len() == 0 {
        return Err(String::from_str("未找到 XiaomiPCManager 或 PcContinuity 安装目录"));
    }
    let mut msg = String::from_str("未找到可用的 ");
    msg.append(LOCALE_DLL);
    msg.append("：");
    msg.append(errors.as_str());
    Err(msg)
}

// ---------------------------------------------------------------- processes to close

/// The groups of processes the operations close.
#[derive(Debug, Clone, Copy, PartialEq, Eq, Structural)]
pub enum ProcessGroup {
    /// Every PC Manager process, closed at startup.
    All,
    /// Before the region patch.
    Locale,
    /// Before the camera prompt patch.
    Camera,
    /// Before the audio patch.
    Audio,
    /// Before the device spoof.
    Device,
    /// Before the SMBIOS patch.
    Smbios,
}

/// The process names (without `.exe`) of a group.
pub open spec fn group_names(g: ProcessGroup) -> Seq<Seq<char>> {
    match g {
        ProcessGroup::All => seq![
            "XiaomiPcManager"@, "XiaomiPcHost"@, "micont_service"@, "MiPCAudio"@, "MiDistributedCameraBroker"@,
            "MiDistributedCameraBroker32"@, "MiHygieneBroker"@, "MiPlayCastService"@, "MiScreenShare"@,
            "MiSmartShareDevice"@, "MiSmartShareHandoff"@, "mistreamservice"@, "PcClipboard"@, "PcyybAssistant"@,
            "XaAppStore"@, "handoff_svc"@, "dist_service"@, "DistributedService"@, "MAFSvr"@, "MASFvr"@,
            "OSDLauncher"@, "OSDUtility"@, "SambaServer"@,
        ],
        ProcessGroup::Locale => seq!["micont_service"@],
        ProcessGroup::Camera => seq!["XiaomiPcManager"@],
        ProcessGroup::Audio => seq!["MiPCAudio"@, "MiPlayCastService"@, "MAFSvr"@, "MASFvr"@],
        ProcessGroup::Device => seq!["XiaomiPcManager"@],
        ProcessGroup::Smbios => seq!["micont_service"@],
    }
}

/// The names as character sequences.
pub open spec fn strs_view(v: Seq<&str>) -> Seq<Seq<char>> {
    v.map_values(|s: &str| s@)
}

/// The process names of a group.
pub fn group_processes(g: ProcessGroup) -> (r: Vec<&'static str>)
    ensures
        strs_view(r@) == group_names(g),
{
    let r: Vec<&'static str> = match g {
        ProcessGroup::All => vec![
            "XiaomiPcManager", "XiaomiPcHost", "micont_service", "MiPCAudio", "MiDistributedCameraBroker",
            "MiDistributedCameraBroker32", "MiHygieneBroker", "MiPlayCastService", "MiScreenShare",
            "MiSmartShareDevice", "MiSmartShareHandoff", "mistreamservice", "PcClipboard", "PcyybAssistant",
            "XaAppStore", "handoff_svc", "dist_service", "DistributedService", "MAFSvr", "MASFvr",
            "OSDLauncher", "OSDUtility", "SambaServer",
        ],
        ProcessGroup::Locale => vec!["micont_service"],
        ProcessGroup::Camera => vec!["XiaomiPcManager"],
        ProcessGroup::Audio => vec!["MiPCAudio", "MiPlayCastService", "MAFSvr", "MASFvr"],
        ProcessGroup::Device => vec!["XiaomiPcManager"],
        ProcessGroup::Smbios => vec!["micont_service"],
    };
    assert(strs_view(r@) =~= group_names(g));
    r
}

/// `parts` joined with `sep`.
pub open spec fn joined(parts: Seq<Seq<char>>, sep: Seq<char>) -> Seq<char>
    decreases parts.len(),
{
    if parts.len() == 0 {
        Seq::empty()
    } else if parts.len() == 1 {
        parts[0]
    } else {
        joined(parts.drop_last(), sep) + sep + parts.last()
    }
}

/// `parts` joined with `", "`.
pub fn join_names(parts: &Vec<String>) -> (r: String)
    ensures
        r@ == joined(crate::install::strings_view(parts@), ", "@),
{
    let ghost pv = crate::install::strings_view(parts@);
    let mut out = String::new();
    let mut i: usize = 0;
    while i < parts.len()
        invariant
            pv == crate::install::strings_view(parts@),
            i <= parts@.len(),
            out@ == joined(pv.take(i as int), ", "@),
        decreases parts@.len() - i,
    {
        if i > 0 {
            out.append(", ");
        }
        out.append(parts[i].as_str());
        proof {
            let t = pv.take(i + 1);
            assert(t.drop_last() =~= pv.take(i as int));
            assert(t.last() == parts@[i as int]@);
            if i == 0 {
                assert(t.len() == 1);
            }
        }
        i = i + 1;
    }
    assert(pv.take(parts@.len() as int) =~= pv);
    out
}

/// The names of a group as owned strings.
fn owned(names: &Vec<&'static str>) -> (r: Vec<String>)
    ensures
        crate::install::strings_view(r@) == strs_view(names@),
{
    let mut r: Vec<String> = Vec::new();
    let mut i: usize = 0;
    while i < names.len()
        invariant
            i <= names@.len(),
            crate::install::strings_view(r@) =~= strs_view(names@).take(i as int),
        decreases names@.len() - i,
    {
        let one = String::from_str(names[i]);
        let ghost before = r@;
        r.push(one);
        assert(r@ =~= before.push(one));
        assert(crate::install::strings_view(r@) =~= crate::install::strings_view(before).push(names@[i as int]@));
        i = i + 1;
    }
    r
}

/// The line reporting `n` closed processes of a group; none when `n` is 0.
pub open spec fn spec_closed_line(n: nat, names: Seq<Seq<char>>) -> Option<Seq<char>> {
    if n == 0 {
        None
    } else {
        Some("已关闭 "@ + spec_decimal(n) + " 个相关进程："@ + joined(names, ", "@))
    }
}

/// The line reporting that `n` processes of group `g` were closed.
pub fn closed_line(n: usize, g: ProcessGroup) -> (r: Option<String>)
    ensures
        r matches Some(s) ==> spec_closed_line(n as nat, group_names(g)) == Some(s@),
        r is None ==> spec_closed_line(n as nat, group_names(g)) is None,
{
    if n == 0 {
        return None;
    }
    let names = owned(&group_processes(g));
    let mut s = String::from_str("已关闭 ");
    push_decimal(&mut s, n as u64);
    s.append(" 个相关进程：");
    let j = join_names(&names);
    s.append(j.as_str());
    Some(s)
}

/// Why a patch that needs its processes gone cannot proceed.
pub open spec fn spec_still_running(running: Seq<Seq<char>>) -> Seq<char> {
    "补丁前必须关闭相关进程，但以下进程仍在运行："@ + joined(running, ", "@) + "。请手动结束后重试。"@
}

/// A patch that needs its processes gone proceeds only when none of them
/// still runs; else the error names them.
pub fn require_closed(running: &Vec<String>) -> (r: Result<(), String>)
    ensures
        running@.len() == 0 ==> r is Ok,
        running@.len() > 0 ==> (r matches Err(m) && m@ == spec_still_running(crate::install::strings_view(running@))),
{
    if running.len() == 0 {
        return Ok(());
    }
    let mut m = String::from_str("补丁前必须关闭相关进程，但以下进程仍在运行：");
    let j = join_names(running);
    m.append(j.as_str());
    m.append("。请手动结束后重试。");
    Err(m)
}

/// The lines logged when a patch met "access denied": the retry notice, the
/// processes closed, and those still running.
pub open spec fn spec_retry_lines(names: Seq<Seq<char>>, closed: nat, running: Seq<Seq<char>>) -> Seq<Seq<char>> {
    let head = seq!["遇到拒绝访问，正在关闭相关进程后重试一次："@ + joined(names, ", "@)];
    let with_closed = match spec_closed_line(closed, names) {
        Some(l) => head.push(l),
        None => head,
    };
    if running.len() > 0 {
        with_closed.push("以下进程仍在运行，将按要求重试一次："@ + joined(running, ", "@))
    } else {
        with_closed
    }
}

/// The lines views of strings.
pub open spec fn lines_of_strings(v: Seq<String>) -> Seq<Seq<char>> {
    crate::install::strings_view(v)
}

/// Appends the lines logged before a patch is retried after "access denied"
/// for group `g`, given how many processes were closed and which still run.
pub fn retry_lines(log: &mut Vec<String>, g: ProcessGroup, closed: usize, running: &Vec<String>)
    ensures
        lines_of_strings(final(log)@) == lines_of_strings(old(log)@) + spec_retry_lines(
            group_names(g),
            closed as nat,
            crate::install::strings_view(running@),
        ),
{
    let names = owned(&group_processes(g));
    let mut head = String::from_str("遇到拒绝访问，正在关闭相关进程后重试一次：");
    let j = join_names(&names);
    head.append(j.as_str());
    let ghost before = lines_of_strings(log@);
    log.push(head);
    let ghost l1 = lines_of_strings(log@);
    assert(l1 =~= before + seq![log@[log@.len() - 1]@]);
    match closed_line(closed, g) {
        Some(l) => log.push(l),
        None => {},
    }
    let ghost l2 = lines_of_strings(log@);
    if running.len() > 0 {
        let mut m = String::from_str("以下进程仍在运行，将按要求重试一次：");
        let jr = join_names(running);
        m.append(jr.as_str());
        log.push(m);
    }
    assert(lines_of_strings(log@) =~= before + spec_retry_lines(group_names(g), closed as nat, crate::install::strings_view(running@)));
}

// ---------------------------------------------------------------- operation logs

/// The closing line of every patch operation.
pub const RESTART_HINT: &'static str = "提示：补丁已完成，请手动重新启动小米电脑管家使其生效。";

/// Whether the full-feature patches are available: PC Manager was found.
pub fn full_features_available(manager_root: Option<&str>) -> (r: bool)
    ensures
        r == manager_root is Some,
{
    manager_root.is_some()
}

/// `a ++ b` as a string.
fn cat(a: &str, b: &str) -> (r: String)
    ensures
        r@ == a@ + b@,
{
    let mut s = String::from_str(a);
    s.append(b);
    s
}

/// Pushes `line` and keeps the line view in step.
fn push_line(log: &mut Vec<String>, line: String)
    ensures
        lines_of_strings(final(log)@) == lines_of_strings(old(log)@).push(line@),
{
    let ghost before = log@;
    log.push(line);
    assert(lines_of_strings(log@) =~= lines_of_strings(before).push(line@));
}

/// The line of a patch outcome: `applied` when it patched, `skipped` when it
/// was in place already, followed by the path.
pub open spec fn outcome_line(patched: bool, applied: Seq<char>, skipped: Seq<char>, path: Seq<char>) -> Seq<char> {
    (if patched { applied } else { skipped }) + path
}

/// Appends the log of the region patch applied to `path`.
pub fn apply_locale(log: &mut Vec<String>, path: &str, outcome: crate::locale_spoof::PatchOutcome, write_registry: bool, region: &str)
    ensures
        lines_of_strings(final(log)@) == lines_of_strings(old(log)@) + seq![
            outcome_line(outcome == crate::locale_spoof::PatchOutcome::Patched, "✓ 地区伪装已应用："@, "• DLL 已是补丁状态（跳过）："@, path@),
        ] + (if write_registry { seq!["  注册表 HKCU\\Control Panel\\International\\Geo\\XCN = "@ + region@] } else { Seq::empty() })
            + seq![RESTART_HINT@],
{
    let ghost before = lines_of_strings(log@);
    let first = match outcome {
        crate::locale_spoof::PatchOutcome::Patched => cat("✓ 地区伪装已应用：", path),
        crate::locale_spoof::PatchOutcome::AlreadyPatched => cat("• DLL 已是补丁状态（跳过）：", path),
    };
    push_line(log, first);
    if write_registry {
        push_line(log, cat("  注册表 HKCU\\Control Panel\\International\\Geo\\XCN = ", region));
    }
    push_line(log, String::from_str(RESTART_HINT));
    assert(lines_of_strings(log@) =~= before + seq![
        outcome_line(outcome == crate::locale_spoof::PatchOutcome::Patched, "✓ 地区伪装已应用："@, "• DLL 已是补丁状态（跳过）："@, path@),
    ] + (if write_registry { seq!["  注册表 HKCU\\Control Panel\\International\\Geo\\XCN = "@ + region@] } else { Seq::empty() })
        + seq![RESTART_HINT@]);
}

/// Appends the log of the region patch reverted at `path`.
pub fn revert_locale(log: &mut Vec<String>, path: &str)
    ensures
        lines_of_strings(final(log)@) == lines_of_strings(old(log)@) + seq!["✓ 已还原地区伪装："@ + path@, RESTART_HINT@],
{
    let ghost before = lines_of_strings(log@);
    push_line(log, cat("✓ 已还原地区伪装：", path));
    push_line(log, String::from_str(RESTART_HINT));
    assert(lines_of_strings(log@) =~= before + seq!["✓ 已还原地区伪装："@ + path@, RESTART_HINT@]);
}

/// Appends the log of the camera prompt patch applied to `path`.
pub fn apply_camera(log: &mut Vec<String>, path: &str, outcome: crate::dotnet::InjectOutcome)
    ensures
        lines_of_strings(final(log)@) == lines_of_strings(old(log)@) + seq![
            outcome_line(outcome == crate::dotnet::InjectOutcome::Patched, "✓ 摄像头弹窗补丁已应用："@, "• 已是补丁状态（跳过）："@, path@),
            RESTART_HINT@,
        ],
{
    let ghost before = lines_of_strings(log@);
    let first = match outcome {
        crate::dotnet::InjectOutcome::Patched => cat("✓ 摄像头弹窗补丁已应用：", path),
        crate::dotnet::InjectOutcome::AlreadyPatched => cat("• 已是补丁状态（跳过）：", path),
    };
    push_line(log, first);
    push_line(log, String::from_str(RESTART_HINT));
    assert(lines_of_strings(log@) =~= before + seq![
        outcome_line(outcome == crate::dotnet::InjectOutcome::Patched, "✓ 摄像头弹窗补丁已应用："@, "• 已是补丁状态（跳过）："@, path@),
        RESTART_HINT@,
    ]);
}

/// Appends the log of the camera prompt patch reverted at `path`.
pub fn revert_camera(log: &mut Vec<String>, path: &str)
    ensures
        lines_of_strings(final(log)@) == lines_of_strings(old(log)@) + seq!["✓ 已还原摄像头弹窗补丁："@ + path@, RESTART_HINT@],
{
    let ghost before = lines_of_strings(log@);
    push_line(log, cat("✓ 已还原摄像头弹窗补丁：", path));
    push_line(log, String::from_str(RESTART_HINT));
    assert(lines_of_strings(log@) =~= before + seq!["✓ 已还原摄像头弹窗补丁："@ + path@, RESTART_HINT@]);
}

/// What the audio operation does about the Wi-Fi route after patching.
#[derive(Debug, Clone, Copy, PartialEq, Eq)]
pub enum RouteAction {
    /// Make sure the Wi-Fi route is in place.
    Apply,
    /// Remove the route the tool created, if any.
    Revert,
    /// Leave the routes alone.
    Leave,
}

/// Wireless broadcast keeps the Wi-Fi route unless told not to; wired
/// broadcast needs none.
pub fn route_action(mode: BroadcastMode, no_wifi_local_route: bool) -> (r: RouteAction)
    ensures
        mode == BroadcastMode::Wireless && !no_wifi_local_route ==> r == RouteAction::Apply,
        mode == BroadcastMode::Wireless && no_wifi_local_route ==> r == RouteAction::Leave,
        mode == BroadcastMode::Wired ==> r == RouteAction::Revert,
{
    match (mode, no_wifi_local_route) {
        (BroadcastMode::Wireless, false) => RouteAction::Apply,
        (BroadcastMode::Wired, _) => RouteAction::Revert,
        (BroadcastMode::Wireless, true) => RouteAction::Leave,
    }
}

/// What happened to the Wi-Fi route during the audio operation.
#[derive(Debug, Clone, Copy, PartialEq, Eq)]
pub enum RouteStep {
    /// The route was created.
    Added,
    /// The route was there already.
    AlreadyPresent,
    /// No usable Wi-Fi IPv4 interface: nothing was changed.
    NoWifiInterface,
    /// The route the tool created was removed.
    Removed,
    /// Nothing was done about routes.
    Untouched,
}

/// The log line of a route step, if any.
pub open spec fn route_step_lines(step: RouteStep) -> Seq<Seq<char>> {
    match step {
        RouteStep::Added => seq!["  已添加 Wi-Fi 本地子网优先路由：音频会话走 Wi-Fi，本机默认流量仍走有线。"@],
        RouteStep::AlreadyPresent => seq!["  Wi-Fi 本地子网优先路由已存在。"@],
        RouteStep::NoWifiInterface => seq!["  未检测到可用 Wi-Fi IPv4 接口；已保留无线广播补丁，未添加本地路由。"@],
        RouteStep::Removed => seq!["  已移除 Wi-Fi 本地子网优先路由（有线模式下发现与媒体均走有线，无需此路由）。"@],
        RouteStep::Untouched => Seq::empty(),
    }
}

/// The line of one patched file: how many selectors were rewritten and how
/// many held the target already.
pub open spec fn file_outcome_line(file: Seq<char>, o: mipcaudio_lan::FileOutcome) -> Seq<char> {
    "  "@ + file + ": 改写 "@ + spec_decimal(o.patched as nat) + " 处, 已是目标 "@ + spec_decimal(o.already as nat) + " 处"@
}

fn file_line(file: &str, o: mipcaudio_lan::FileOutcome) -> (r: String)
    ensures
        r@ == file_outcome_line(file@, o),
{
    let mut s = cat("  ", file);
    s.append(": 改写 ");
    push_decimal(&mut s, o.patched as u64);
    s.append(" 处, 已是目标 ");
    push_decimal(&mut s, o.already as u64);
    s.append(" 处");
    s
}

/// The label of a broadcast mode, as the audio patch names it.
pub open spec fn mode_label(mode: BroadcastMode) -> Seq<char> {
    match mode {
        BroadcastMode::Wireless => "无线 (WiFi)"@,
        BroadcastMode::Wired => "有线 (LAN)"@,
    }
}

/// Appends the log of the audio patch: the mode, each file's counts (the
/// two files in name order), the identity note and the route step.
pub fn apply_audio_with_options(
    log: &mut Vec<String>,
    mode: BroadcastMode,
    outcomes: (mipcaudio_lan::FileOutcome, mipcaudio_lan::FileOutcome),
    route: RouteStep,
)
    ensures
        lines_of_strings(final(log)@) == lines_of_strings(old(log)@) + seq![
            "✓ 音频流转广播模式已切换为："@ + mode_label(mode),
            file_outcome_line(mipcaudio_lan::TARGET_MIPCAUDIO@, outcomes.0),
            file_outcome_line(mipcaudio_lan::TARGET_IDMRUNTIME@, outcomes.1),
            "  （三处网卡身份已统一 → 手机端应为单设备）"@,
        ] + route_step_lines(route) + seq![RESTART_HINT@],
{
    let ghost before = lines_of_strings(log@);
    let label = mode.patch_mode().label();
    push_line(log, cat("✓ 音频流转广播模式已切换为：", label));
    push_line(log, file_line(mipcaudio_lan::TARGET_MIPCAUDIO, outcomes.0));
    push_line(log, file_line(mipcaudio_lan::TARGET_IDMRUNTIME, outcomes.1));
    push_line(log, String::from_str("  （三处网卡身份已统一 → 手机端应为单设备）"));
    let ghost mid = lines_of_strings(log@);
    match route {
        RouteStep::Added => push_line(log, String::from_str("  已添加 Wi-Fi 本地子网优先路由：音频会话走 Wi-Fi，本机默认流量仍走有线。")),
        RouteStep::AlreadyPresent => push_line(log, String::from_str("  Wi-Fi 本地子网优先路由已存在。")),
        RouteStep::NoWifiInterface => push_line(log, String::from_str("  未检测到可用 Wi-Fi IPv4 接口；已保留无线广播补丁，未添加本地路由。")),
        RouteStep::Removed => push_line(log, String::from_str("  已移除 Wi-Fi 本地子网优先路由（有线模式下发现与媒体均走有线，无需此路由）。")),
        RouteStep::Untouched => {},
    }
    assert(lines_of_strings(log@) =~= mid + route_step_lines(route));
    push_line(log, String::from_str(RESTART_HINT));
    assert(lines_of_strings(log@) =~= before + seq![
        "✓ 音频流转广播模式已切换为："@ + mode_label(mode),
        file_outcome_line(mipcaudio_lan::TARGET_MIPCAUDIO@, outcomes.0),
        file_outcome_line(mipcaudio_lan::TARGET_IDMRUNTIME@, outcomes.1),
        "  （三处网卡身份已统一 → 手机端应为单设备）"@,
    ] + route_step_lines(route) + seq![RESTART_HINT@]);
}

/// Appends the log of the audio patch reverted; `route_removed` tells
/// whether the tool's Wi-Fi route was removed with it.
pub fn revert_audio(log: &mut Vec<String>, route_removed: bool)
    ensures
        lines_of_strings(final(log)@) == lines_of_strings(old(log)@)
            + (if route_removed { seq!["  已移除 Wi-Fi 本地子网优先路由。"@] } else { Seq::empty() })
            + seq!["✓ 已还原音频流转补丁（MiPCAudio.exe / idmruntime.dll）"@, RESTART_HINT@],
{
    let ghost before = lines_of_strings(log@);
    if route_removed {
        push_line(log, String::from_str("  已移除 Wi-Fi 本地子网优先路由。"));
    }
    push_line(log, String::from_str("✓ 已还原音频流转补丁（MiPCAudio.exe / idmruntime.dll）"));
    push_line(log, String::from_str(RESTART_HINT));
    assert(lines_of_strings(log@) =~= before
        + (if route_removed { seq!["  已移除 Wi-Fi 本地子网优先路由。"@] } else { Seq::empty() })
        + seq!["✓ 已还原音频流转补丁（MiPCAudio.exe / idmruntime.dll）"@, RESTART_HINT@]);
}

/// Appends the log of the device spoof applied with `model` in `dir`.
pub fn apply_device(log: &mut Vec<String>, model: &str, dir: &str)
    ensures
        lines_of_strings(final(log)@) == lines_of_strings(old(log)@) + seq![
            "✓ 设备伪装已应用：机型 = "@ + model@,
            "  已释放 "@ + crate::device_spoof::PROXY_DLL_NAME@ + " 至 "@ + dir@,
            "  注册表 HKCU\\Software\\SmartSharePatch\\SpoofDevice = "@ + model@,
            RESTART_HINT@,
        ],
{
    let ghost before = lines_of_strings(log@);
    push_line(log, cat("✓ 设备伪装已应用：机型 = ", model));
    let mut l = cat("  已释放 ", crate::device_spoof::PROXY_DLL_NAME);
    l.append(" 至 ");
    l.append(dir);
    push_line(log, l);
    push_line(log, cat("  注册表 HKCU\\Software\\SmartSharePatch\\SpoofDevice = ", model));
    push_line(log, String::from_str(RESTART_HINT));
    assert(lines_of_strings(log@) =~= before + seq![
        "✓ 设备伪装已应用：机型 = "@ + model@,
        "  已释放 "@ + crate::device_spoof::PROXY_DLL_NAME@ + " 至 "@ + dir@,
        "  注册表 HKCU\\Software\\SmartSharePatch\\SpoofDevice = "@ + model@,
        RESTART_HINT@,
    ]);
}

/// Appends the log of the device spoof reverted.
pub fn revert_device(log: &mut Vec<String>)
    ensures
        lines_of_strings(final(log)@) == lines_of_strings(old(log)@) + seq![
            "✓ 已还原设备伪装（移除 msimg32.dll 与注册表机型）"@,
            RESTART_HINT@,
        ],
{
    let ghost before = lines_of_strings(log@);
    push_line(log, String::from_str("✓ 已还原设备伪装（移除 msimg32.dll 与注册表机型）"));
    push_line(log, String::from_str(RESTART_HINT));
    assert(lines_of_strings(log@) =~= before + seq!["✓ 已还原设备伪装（移除 msimg32.dll 与注册表机型）"@, RESTART_HINT@]);
}

/// Appends the log of the SMBIOS patch applied to `path`.
pub fn apply_smbios(log: &mut Vec<String>, path: &str, outcome: crate::smbios_spoof::PatchOutcome)
    ensures
        lines_of_strings(final(log)@) == lines_of_strings(old(log)@) + seq![
            outcome_line(outcome == crate::smbios_spoof::PatchOutcome::Patched, "✓ SMBIOS 设备身份补丁已应用："@, "• SMBIOS 已是补丁状态（跳过）："@, path@),
            RESTART_HINT@,
        ],
{
    let ghost before = lines_of_strings(log@);
    let first = match outcome {
        crate::smbios_spoof::PatchOutcome::Patched => cat("✓ SMBIOS 设备身份补丁已应用：", path),
        crate::smbios_spoof::PatchOutcome::AlreadyPatched => cat("• SMBIOS 已是补丁状态（跳过）：", path),
    };
    push_line(log, first);
    push_line(log, String::from_str(RESTART_HINT));
    assert(lines_of_strings(log@) =~= before + seq![
        outcome_line(outcome == crate::smbios_spoof::PatchOutcome::Patched, "✓ SMBIOS 设备身份补丁已应用："@, "• SMBIOS 已是补丁状态（跳过）："@, path@),
        RESTART_HINT@,
    ]);
}

/// Appends the log of the SMBIOS patch reverted at `path`.
pub fn revert_smbios(log: &mut Vec<String>, path: &str)
    ensures
        lines_of_strings(final(log)@) == lines_of_strings(old(log)@) + seq!["✓ 已还原 SMBIOS 设备身份补丁："@ + path@, RESTART_HINT@],
{
    let ghost before = lines_of_strings(log@);
    push_line(log, cat("✓ 已还原 SMBIOS 设备身份补丁：", path));
    push_line(log, String::from_str(RESTART_HINT));
    assert(lines_of_strings(log@) =~= before + seq!["✓ 已还原 SMBIOS 设备身份补丁："@ + path@, RESTART_HINT@]);
}

/// The log of an installer of `kind` at `installer` started as process `pid`.
pub fn install_from_path(kind: InstallerKind, installer: &str, pid: u32) -> (r: Vec<String>)
    ensures
        lines_of_strings(r@) == seq![
            "✓ 已启动"@ + crate::pc_manager_installer::spec_label(kind) + "安装包："@ + installer@,
            "  已释放 "@ + crate::device_spoof::PROXY_DLL_NAME@ + "、写入 SpoofDevice="@ + crate::device_spoof::DEFAULT_MODEL@
                + "，注入并旁路 WinVersionMatch(需Win11) + MatchProduct*| PID: "@ + spec_decimal(pid as nat),
        ],
{
    let mut log: Vec<String> = Vec::new();
    let mut a = cat("✓ 已启动", kind.label());
    a.append("安装包：");
    a.append(installer);
    push_line(&mut log, a);
    let mut b = cat("  已释放 ", crate::device_spoof::PROXY_DLL_NAME);
    b.append("、写入 SpoofDevice=");
    b.append(crate::device_spoof::DEFAULT_MODEL);
    b.append("，注入并旁路 WinVersionMatch(需Win11) + MatchProduct*| PID: ");
    push_decimal(&mut b, pid as u64);
    push_line(&mut log, b);
    assert(lines_of_strings(log@) =~= seq![
        "✓ 已启动"@ + crate::pc_manager_installer::spec_label(kind) + "安装包："@ + installer@,
        "  已释放 "@ + crate::device_spoof::PROXY_DLL_NAME@ + "、写入 SpoofDevice="@ + crate::device_spoof::DEFAULT_MODEL@
            + "，注入并旁路 WinVersionMatch(需Win11) + MatchProduct*| PID: "@ + spec_decimal(pid as nat),
    ]);
    log
}

// ---------------------------------------------------------------- status

/// What the status view shows of one patched file: its name, whether it
/// exists and whether its backup does.
pub struct FileFacts {
    pub name: String,
    pub exists: bool,
    pub backup: bool,
}

/// What was found in PC Manager's latest version directory.
pub struct ManagerVersionFacts {
    pub version_dir: String,
    pub locale_dll: FileFacts,
    pub camera_dll: FileFacts,
    /// (file, broadcast-mode state) of the audio files.
    pub audio_states: Vec<(String, String)>,
    /// The Wi-Fi route's state line.
    pub route_state: String,
    /// The proxy DLL in the version directory is the tool's.
    pub proxy_in_place: bool,
    /// The spoofed model in the registry, if set.
    pub registry_model: Option<String>,
    /// The SMBIOS patch is in place (its target exists and has a backup).
    pub smbios_in_place: bool,
}

/// What was found under Interconnect's root.
pub struct ContinuityVersionFacts {
    pub version_dir: String,
    pub locale_dll: FileFacts,
}

/// What the status view is built from: each install root found, with its
/// latest version directory's facts or why none could be determined.
pub struct StatusFacts {
    pub manager: Option<(String, Result<ManagerVersionFacts, String>)>,
    pub continuity: Option<(String, Result<ContinuityVersionFacts, String>)>,
}

/// The status line of a file.
pub open spec fn file_status_line(f: FileFacts) -> Seq<char> {
    "  "@ + f.name@ + " | 存在:"@ + (if f.exists { "是"@ } else { "否"@ }) + " | 备份:"@ + (if f.backup { "有"@ } else { "无"@ })
}

/// The lines of the audio files' states.
pub open spec fn audio_state_lines(states: Seq<(String, String)>) -> Seq<Seq<char>> {
    states.map_values(|p: (String, String)| "     "@ + p.0@ + ": "@ + p.1@)
}

/// The lines of PC Manager's latest version directory.
pub open spec fn manager_version_lines(v: ManagerVersionFacts) -> Seq<Seq<char>> {
    seq![
        "最新版本目录："@ + v.version_dir@,
        file_status_line(v.locale_dll),
        file_status_line(v.camera_dll),
        "  -- 音频流转广播模式 --"@,
    ] + audio_state_lines(v.audio_states@) + seq![
        "     Wi-Fi 本地路由: "@ + v.route_state@,
        "  -- 设备伪装 --"@,
        "     msimg32.dll: "@ + (if v.proxy_in_place { "已就位"@ } else { "未就位"@ }) + " | 注册表机型: "@
            + (match v.registry_model { Some(m) => m@, None => "未设置"@ }),
        "  -- [实验性] Lyra 特殊适配 --"@,
        "     SMBIOS 设备身份: "@ + (if v.smbios_in_place { "已就位"@ } else { "未就位"@ }),
    ]
}

/// The line shown when no version directory could be determined.
pub open spec fn no_version_line(e: Seq<char>) -> Seq<char> {
    "（无法确定版本目录："@ + e + "）"@
}

/// The lines of PC Manager's root, if found.
pub open spec fn manager_lines(f: StatusFacts) -> Seq<Seq<char>> {
    match f.manager {
        Some((root, v)) => seq![Seq::<char>::empty(), "-- XiaomiPCManager（全功能）--"@, "安装根目录："@ + root@]
            + match v {
            Ok(vf) => manager_version_lines(vf),
            Err(e) => seq![no_version_line(e@)],
        },
        None => Seq::empty(),
    }
}

/// The lines of Interconnect's root, if found.
pub open spec fn continuity_lines(f: StatusFacts) -> Seq<Seq<char>> {
    match f.continuity {
        Some((root, v)) => seq![
            Seq::<char>::empty(),
            "-- PcContinuity（小米互联 / 互联互通，仅地区伪装）--"@,
            "安装根目录："@ + root@,
        ] + match v {
            Ok(vf) => seq![
                "最新版本目录："@ + vf.version_dir@,
                file_status_line(vf.locale_dll),
                "  摄像头、音频流转和设备伪装：当前版本不可用"@,
            ],
            Err(e) => seq![no_version_line(e@)],
        },
        None => Seq::empty(),
    }
}

/// The status lines: a title, then each install root found with its latest
/// version directory's files and patch states.
pub open spec fn spec_status_lines(f: StatusFacts) -> Seq<Seq<char>> {
    let title = seq!["== 小米电脑管家补丁状态 =="@];
    if f.manager is None && f.continuity is None {
        title.push("未探测到安装目录（可用 --dll/--dir 手动指定）。"@)
    } else {
        title + manager_lines(f) + continuity_lines(f)
    }
}

fn file_status(f: &FileFacts) -> (r: String)
    ensures
        r@ == file_status_line(*f),
{
    let mut s = cat("  ", f.name.as_str());
    s.append(" | 存在:");
    s.append(if f.exists { "是" } else { "否" });
    s.append(" | 备份:");
    s.append(if f.backup { "有" } else { "无" });
    s
}

fn push_manager_version(log: &mut Vec<String>, v: &ManagerVersionFacts)
    ensures
        lines_of_strings(final(log)@) == lines_of_strings(old(log)@) + manager_version_lines(*v),
{
    let ghost before = lines_of_strings(log@);
    push_line(log, cat("最新版本目录：", v.version_dir.as_str()));
    push_line(log, file_status(&v.locale_dll));
    push_line(log, file_status(&v.camera_dll));
    push_line(log, String::from_str("  -- 音频流转广播模式 --"));
    let ghost head = lines_of_strings(log@);
    let ghost states = v.audio_states@;
    let mut i: usize = 0;
    while i < v.audio_states.len()
        invariant
            states == v.audio_states@,
            i <= states.len(),
            lines_of_strings(log@) == head + audio_state_lines(states.take(i as int)),
        decreases states.len() - i,
    {
        let mut l = cat("     ", v.audio_states[i].0.as_str());
        l.append(": ");
        l.append(v.audio_states[i].1.as_str());
        push_line(log, l);
        proof {
            assert(audio_state_lines(states.take(i + 1)) =~= audio_state_lines(states.take(i as int)).push(
                "     "@ + states[i as int].0@ + ": "@ + states[i as int].1@,
            ));
        }
        i = i + 1;
    }
    assert(states.take(states.len() as int) =~= states);
    push_line(log, cat("     Wi-Fi 本地路由: ", v.route_state.as_str()));
    push_line(log, String::from_str("  -- 设备伪装 --"));
    let mut d = cat("     msimg32.dll: ", if v.proxy_in_place { "已就位" } else { "未就位" });
    d.append(" | 注册表机型: ");
    match &v.registry_model {
        Some(m) => d.append(m.as_str()),
        None => d.append("未设置"),
    }
    push_line(log, d);
    push_line(log, String::from_str("  -- [实验性] Lyra 特殊适配 --"));
    push_line(log, cat("     SMBIOS 设备身份: ", if v.smbios_in_place { "已就位" } else { "未就位" }));
    assert(lines_of_strings(log@) =~= before + manager_version_lines(*v));
}

fn no_version(e: &str) -> (r: String)
    ensures
        r@ == no_version_line(e@),
{
    let mut s = cat("（无法确定版本目录：", e);
    s.append("）");
    s
}

/// The status view built from what was found.
pub fn status_lines(f: &StatusFacts) -> (r: Vec<String>)
    ensures
        lines_of_strings(r@) == spec_status_lines(*f),
{
    let mut out: Vec<String> = Vec::new();
    push_line(&mut out, String::from_str("== 小米电脑管家补丁状态 =="));
    if f.manager.is_none() && f.continuity.is_none() {
        push_line(&mut out, String::from_str("未探测到安装目录（可用 --dll/--dir 手动指定）。"));
        assert(lines_of_strings(out@) =~= spec_status_lines(*f));
        return out;
    }
    let ghost title = lines_of_strings(out@);
    match &f.manager {
        Some((root, v)) => {
            push_line(&mut out, String::new());
            push_line(&mut out, String::from_str("-- XiaomiPCManager（全功能）--"));
            push_line(&mut out, cat("安装根目录：", root.as_str()));
            match v {
                Ok(vf) => push_manager_version(&mut out, vf),
                Err(e) => push_line(&mut out, no_version(e.as_str())),
            }
        },
        None => {},
    }
    let ghost after_m = lines_of_strings(out@);
    match &f.continuity {
        Some((root, v)) => {
            push_line(&mut out, String::new());
            push_line(&mut out, String::from_str("-- PcContinuity（小米互联 / 互联互通，仅地区伪装）--"));
            push_line(&mut out, cat("安装根目录：", root.as_str()));
            match v {
                Ok(vf) => {
                    push_line(&mut out, cat("最新版本目录：", vf.version_dir.as_str()));
                    push_line(&mut out, file_status(&vf.locale_dll));
                    push_line(&mut out, String::from_str("  摄像头、音频流转和设备伪装：当前版本不可用"));
                },
                Err(e) => push_line(&mut out, no_version(e.as_str())),
            }
        },
        None => {},
    }
    assert(after_m =~= title + manager_lines(*f));
    assert(lines_of_strings(out@) =~= spec_status_lines(*f));
    out
}

} // verus!
