//! Uninstalling Xiaomi PC Manager or Xiaomi Interconnect is irreversible, so
//! the front ends first show what will be removed. The uninstall steps
//! themselves (running the product's `uninstall.exe`, removing services and
//! directories) are performed by the caller.

use vstd::prelude::*;
use vstd::string::StringExecFns;
use crate::infra::text::concat3;
use crate::device_spoof::{spec_trim, trim};

verus! {

/// Why nothing can be uninstalled.
#[derive(Debug, Clone, Copy, PartialEq, Eq)]
pub enum UninstallError {
    /// Both products are installed, which is not supported: uninstall them one by one.
    BothInstalled,
    /// Neither product is installed.
    NothingInstalled,
}

impl UninstallError {
    /// The text shown for the error.
    pub fn message(self) -> (r: &'static str)
        ensures
            r@ == (match self {
                UninstallError::BothInstalled => "同时检测到小米电脑管家和小米互联。\n当前不支持同时安装，请逐一卸载。"@,
                UninstallError::NothingInstalled => "未检测到已安装的小米电脑管家或小米互联"@,
            }),
    {
        match self {
            UninstallError::BothInstalled => "同时检测到小米电脑管家和小米互联。\n当前不支持同时安装，请逐一卸载。",
            UninstallError::NothingInstalled => "未检测到已安装的小米电脑管家或小米互联",
        }
    }
}

/// The text before the install root, for PC Manager.
pub const MANAGER_TEXT_HEAD: &'static str = "将卸载 小米电脑管家\n\n安装目录：";
/// The text after the install root, for PC Manager.
pub const MANAGER_TEXT_TAIL: &'static str = "\n包含：主程序、AIService、MiService\n将删除所有相关服务与临时文件\n\n此操作不可逆！";
/// The text before the install root, for Interconnect.
pub const CONTINUITY_TEXT_HEAD: &'static str = "将卸载 小米互联 / PcContinuity\n\n安装目录：";
/// The text after the install root, for Interconnect.
pub const CONTINUITY_TEXT_TAIL: &'static str = "\n将删除所有相关服务与临时文件\n\n此操作不可逆！";

/// The confirmation text for uninstalling the one installed product, given
/// the install roots found.
pub fn uninstall_description(manager_root: Option<&str>, continuity_root: Option<&str>) -> (r: Result<String, UninstallError>)
    ensures
        match (manager_root, continuity_root) {
            (Some(_), Some(_)) => r == Err::<String, UninstallError>(UninstallError::BothInstalled),
            (Some(root), None) => r matches Ok(s) && s@ == MANAGER_TEXT_HEAD@ + root@ + MANAGER_TEXT_TAIL@,
            (None, Some(root)) => r matches Ok(s) && s@ == CONTINUITY_TEXT_HEAD@ + root@ + CONTINUITY_TEXT_TAIL@,
            (None, None) => r == Err::<String, UninstallError>(UninstallError::NothingInstalled),
        },
{
    match (manager_root, continuity_root) {
        (Some(_), Some(_)) => Err(UninstallError::BothInstalled),
        (Some(root), None) => Ok(concat3(MANAGER_TEXT_HEAD, root, MANAGER_TEXT_TAIL)),
        (None, Some(root)) => Ok(concat3(CONTINUITY_TEXT_HEAD, root, CONTINUITY_TEXT_TAIL)),
        (None, None) => Err(UninstallError::NothingInstalled),
    }
}

// ---------------------------------------------------------------- packages and services

/// Name of the MiDrop Ext MSIX package.
pub const MSIX_PACKAGE_NAME: &'static str = "5f71dad9-3e77-4ada-9fad-12c2e761288f";

/// The data directory removed with either product.
pub const PROGRAM_DATA_DIR: &'static str = "C:\\ProgramData\\MI";

/// The services of PC Manager (including those it shares with Interconnect).
pub open spec fn spec_manager_services() -> Seq<Seq<char>> {
    seq![
        "AIService"@, "MAFSvr"@, "MiDeviceService"@, "MiPlayCastService"@, "MiService"@, "micont_service"@,
        "dist_service"@, "DistributedService"@, "handoff_service"@,
    ]
}

/// The services of Interconnect.
pub open spec fn spec_continuity_services() -> Seq<Seq<char>> {
    seq!["micont_service"@, "MiPcContinuityService"@]
}

/// The names as character sequences.
pub open spec fn names_view(v: Seq<&str>) -> Seq<Seq<char>> {
    v.map_values(|s: &str| s@)
}

/// The services removed when PC Manager (`is_manager`) or Interconnect is uninstalled.
pub fn product_services(is_manager: bool) -> (r: Vec<&'static str>)
    ensures
        names_view(r@) == (if is_manager { spec_manager_services() } else { spec_continuity_services() }),
{
    let r: Vec<&'static str> = if is_manager {
        vec![
            "AIService", "MAFSvr", "MiDeviceService", "MiPlayCastService", "MiService", "micont_service",
            "dist_service", "DistributedService", "handoff_service",
        ]
    } else {
        vec!["micont_service", "MiPcContinuityService"]
    };
    assert(names_view(r@) =~= (if is_manager { spec_manager_services() } else { spec_continuity_services() }));
    r
}

/// The sub-products uninstalled with PC Manager: (install root, label).
pub fn sub_products() -> (r: Vec<(&'static str, &'static str)>)
    ensures
        r@.len() == 2,
        r@[0].0@ == "C:\\Program Files\\MI\\AIService"@ && r@[0].1@ == "AIService"@,
        r@[1].0@ == "C:\\Program Files (x86)\\Timi Personal Computing\\MiService"@ && r@[1].1@ == "MiService"@,
{
    vec![
        ("C:\\Program Files\\MI\\AIService", "AIService"),
        ("C:\\Program Files (x86)\\Timi Personal Computing\\MiService", "MiService"),
    ]
}

/// The temporary directories (under `%LOCALAPPDATA%\Temp\Timi Personal
/// Computing`) removed with PC Manager (`is_manager`) or Interconnect.
pub fn temp_subdirs(is_manager: bool) -> (r: Vec<&'static str>)
    ensures
        names_view(r@) == (if is_manager {
            seq!["MiServiceTMPX"@, "XiaomiPCManagerTMPX"@, "AIServiceTMPX"@]
        } else {
            seq!["PcContinuityTMPX"@]
        }),
{
    let r: Vec<&'static str> = if is_manager {
        vec!["MiServiceTMPX", "XiaomiPCManagerTMPX", "AIServiceTMPX"]
    } else {
        vec!["PcContinuityTMPX"]
    };
    assert(names_view(r@) =~= (if is_manager {
        seq!["MiServiceTMPX"@, "XiaomiPCManagerTMPX"@, "AIServiceTMPX"@]
    } else {
        seq!["PcContinuityTMPX"@]
    }));
    r
}

/// The query for the installed MSIX package's full name.
pub fn detect_msix_script() -> (r: String)
    ensures
        r@ == "Get-AppxPackage -Name '"@ + MSIX_PACKAGE_NAME@ + "' | Select-Object -ExpandProperty PackageFullName"@,
{
    let mut s = String::from_str("Get-AppxPackage -Name '");
    s.append(MSIX_PACKAGE_NAME);
    s.append("' | Select-Object -ExpandProperty PackageFullName");
    s
}

/// A query's answer as a name: the trimmed text, none when blank.
pub fn answered_name(output: &str) -> (r: Option<String>)
    ensures
        spec_trim(output@).len() == 0 ==> r is None,
        spec_trim(output@).len() > 0 ==> (r matches Some(n) && n@ == spec_trim(output@)),
{
    let t = trim(output);
    if t.unicode_len() == 0 {
        None
    } else {
        Some(t.to_string())
    }
}

/// The command that removes the MSIX package `package_full_name`.
pub fn remove_msix_script(package_full_name: &str) -> (r: String)
    ensures
        r@ == "Remove-AppxPackage -Package '"@ + package_full_name@ + "'"@,
{
    concat3("Remove-AppxPackage -Package '", package_full_name, "'")
}

/// The query that prints the service's name when it exists.
pub fn service_exists_script(name: &str) -> (r: String)
    ensures
        r@ == "Get-Service -Name '"@ + name@ + "' -ErrorAction SilentlyContinue | Select-Object -ExpandProperty Name"@,
{
    concat3("Get-Service -Name '", name, "' -ErrorAction SilentlyContinue | Select-Object -ExpandProperty Name")
}

/// The command that removes the service `name`.
pub fn remove_service_script(name: &str) -> (r: String)
    ensures
        r@ == "Remove-Service -Name '"@ + name@ + "'"@,
{
    concat3("Remove-Service -Name '", name, "'")
}

/// A service exists when its query answered something; a failed query
/// counts as absent.
pub fn service_listed(answer: Result<&str, ()>) -> (r: bool)
    ensures
        r == (answer matches Ok(o) && spec_trim(o@).len() > 0),
{
    match answer {
        Ok(o) => trim(o).unicode_len() > 0,
        Err(_) => false,
    }
}

} // verus!
