use mipcmanager_patch::audio_wifi_route::{
    add_route_result, add_route_script, answer_line, remove_route_script, same_route, RouteState, WifiSubnet,
};
use mipcmanager_patch::device_spoof::{needs_backup, proxy_is_current, proxy_revert, DeviceError, ProxyRevert};
use mipcmanager_patch::dotnet::metadata::MetadataError;
use mipcmanager_patch::dotnet::pe::PeError;
use mipcmanager_patch::dotnet::InjectError;
use mipcmanager_patch::elevate::{quote_arg, relaunch_needed};
use mipcmanager_patch::i18n::{lang_from_env, lang_from_ui_language, Lang};
use mipcmanager_patch::infra::powershell::powershell_result;
use mipcmanager_patch::install::{path_is_under, processes_to_kill, temporary_path, ProcessInfo};
use mipcmanager_patch::mipcaudio_lan::current_state;
use mipcmanager_patch::ops::{
    closed_line, group_processes, require_closed, retry_lines, route_action, ProcessGroup, RouteAction,
};
use mipcmanager_patch::pc_manager_installer::{
    check_installer, download_temporary_path, installer_order, rollback_plan, PrepareError, RollbackPlan,
};
use mipcmanager_patch::uninstall::{
    answered_name, detect_msix_script, product_services, remove_service_script, service_listed, UninstallError,
};

fn proc(pid: u32, name: &str, exe: Option<&str>) -> ProcessInfo {
    ProcessInfo { pid, name: name.to_string(), exe: exe.map(|e| e.to_string()) }
}

#[test]
fn paths_under_an_install_root() {
    let root = r"C:\Program Files\MI\XiaomiPCManager";
    assert!(path_is_under(r"C:\Program Files\MI\XiaomiPCManager\5.8.0.14\XiaomiPcManager.exe", root));
    assert!(path_is_under(r"c:/program files/mi/xiaomipcmanager/", root));
    assert!(path_is_under(root, r"C:\Program Files\MI\XiaomiPCManager\\"));
    assert!(!path_is_under(r"C:\Program Files\MI\XiaomiPCManagerX\a.exe", root));
    assert!(!path_is_under(r"C:\Program Files\MI\PcContinuity\a.exe", root));
}

#[test]
fn processes_closed_at_startup_and_before_patches() {
    let procs = vec![
        proc(1, "XiaomiPcManager.exe", Some(r"C:\Program Files\MI\XiaomiPCManager\5.8\XiaomiPcManager.exe")),
        proc(2, "helper.exe", Some(r"C:\Program Files\MI\XiaomiPCManager\5.8\helper.exe")),
        proc(3, "micont_service.exe", Some(r"C:\Program Files\MI\PcContinuity\1.1\micont_service.exe")),
        proc(4, "notepad.exe", None),
        proc(5, "MICONT_SERVICE", None),
    ];
    let roots = vec![r"C:\Program Files\MI\XiaomiPCManager".to_string()];
    let all = group_processes(ProcessGroup::All);
    assert_eq!(processes_to_kill(&procs, &all, &roots, false, None), vec![1, 2]);
    assert_eq!(processes_to_kill(&procs, &all, &roots, false, Some(2)), vec![1]);
    let locale = group_processes(ProcessGroup::Locale);
    assert_eq!(processes_to_kill(&procs, &locale, &Vec::new(), true, None), vec![3, 5]);
}

#[test]
fn process_groups() {
    assert_eq!(group_processes(ProcessGroup::All).len(), 23);
    assert_eq!(group_processes(ProcessGroup::Audio), vec!["MiPCAudio", "MiPlayCastService", "MAFSvr", "MASFvr"]);
    assert_eq!(group_processes(ProcessGroup::Camera), vec!["XiaomiPcManager"]);
    assert_eq!(group_processes(ProcessGroup::Smbios), vec!["micont_service"]);
}

#[test]
fn closing_and_retry_lines() {
    assert_eq!(closed_line(0, ProcessGroup::Audio), None);
    assert_eq!(
        closed_line(2, ProcessGroup::Audio).unwrap(),
        "已关闭 2 个相关进程：MiPCAudio, MiPlayCastService, MAFSvr, MASFvr"
    );
    assert!(require_closed(&Vec::new()).is_ok());
    assert_eq!(
        require_closed(&vec!["a.exe".to_string(), "b.exe".to_string()]).unwrap_err(),
        "补丁前必须关闭相关进程，但以下进程仍在运行：a.exe, b.exe。请手动结束后重试。"
    );
    let mut log = vec!["x".to_string()];
    retry_lines(&mut log, ProcessGroup::Locale, 1, &vec!["micont_service.exe".to_string()]);
    assert_eq!(
        log,
        vec![
            "x",
            "遇到拒绝访问，正在关闭相关进程后重试一次：micont_service",
            "已关闭 1 个相关进程：micont_service",
            "以下进程仍在运行，将按要求重试一次：micont_service.exe",
        ]
    );
}

#[test]
fn the_route_follows_the_broadcast_mode() {
    assert_eq!(route_action(mipcmanager_patch::ops::BroadcastMode::Wireless, false), RouteAction::Apply);
    assert_eq!(route_action(mipcmanager_patch::ops::BroadcastMode::Wireless, true), RouteAction::Leave);
    assert_eq!(route_action(mipcmanager_patch::ops::BroadcastMode::Wired, false), RouteAction::Revert);
}

#[test]
fn audio_state_per_selector() {
    let mut a = vec![0u8; 4];
    a.extend_from_slice(&[0x41, 0x83, 0x79, 0x64, 0x06, 0x75]);
    let states = current_state(&Some(a), &None);
    assert_eq!(states[0], ("MiPCAudio.exe".to_string(), "有线(LAN)".to_string()));
    assert_eq!(states[1], ("idmruntime.dll".to_string(), "文件不可读".to_string()));
    assert_eq!(states[2], ("idmruntime.dll".to_string(), "文件不可读".to_string()));
    let states = current_state(&Some(vec![1, 2]), &Some(vec![0u8; 64]));
    assert_eq!(states[0].1, "未定位(文件过小)");
    assert_eq!(states[1].1, "未定位(未找到 IfType 选择器特征，可能版本结构已变更)");
}

#[test]
fn route_commands_and_answers() {
    assert_eq!(answer_line("\r\n  \r\n 13|192.168.50.123|24 \r\nx"), Some("13|192.168.50.123|24".to_string()));
    assert_eq!(answer_line(" \n\t\n"), None);
    let w = WifiSubnet { interface_index: 13, prefix: "192.168.50.0/24".to_string() };
    assert_eq!(
        add_route_script(&w),
        "$existing = Get-NetRoute -PolicyStore PersistentStore -DestinationPrefix '192.168.50.0/24' -InterfaceIndex 13 -NextHop '0.0.0.0' -ErrorAction SilentlyContinue | Where-Object { $_.RouteMetric -eq 1 } | Select-Object -First 1; if ($null -ne $existing) { 'existing' } else { New-NetRoute -PolicyStore PersistentStore -DestinationPrefix '192.168.50.0/24' -InterfaceIndex 13 -NextHop '0.0.0.0' -RouteMetric 1 -ErrorAction Stop | Out-Null; 'created' }"
    );
    let r = RouteState { interface_index: 13, prefix: "192.168.50.0/24".to_string() };
    assert_eq!(
        remove_route_script(&r),
        "Get-NetRoute -PolicyStore PersistentStore -DestinationPrefix '192.168.50.0/24' -InterfaceIndex 13 -NextHop '0.0.0.0' -ErrorAction SilentlyContinue | Where-Object { $_.RouteMetric -eq 1 } | Remove-NetRoute -PolicyStore PersistentStore -Confirm:$false -ErrorAction Stop"
    );
    assert_eq!(add_route_result("created\r\n"), Ok(true));
    assert_eq!(add_route_result(" existing"), Ok(false));
    assert_eq!(add_route_result("odd"), Err("添加 Wi-Fi 本地路由未返回预期结果：odd".to_string()));
    assert!(same_route(&r, &w));
    assert!(!same_route(&RouteState { interface_index: 14, prefix: w.prefix.clone() }, &w));
}

#[test]
fn proxy_file_decisions() {
    let proxy = [1u8, 2, 3];
    assert!(!needs_backup(&None, &proxy, false));
    assert!(!needs_backup(&Some(vec![1, 2, 3]), &proxy, false));
    assert!(needs_backup(&Some(vec![9]), &proxy, false));
    assert!(!needs_backup(&Some(vec![9]), &proxy, true));
    assert_eq!(proxy_revert(true, &Some(vec![1, 2, 3]), &proxy), ProxyRevert::RestoreBackup);
    assert_eq!(proxy_revert(false, &Some(vec![1, 2, 3]), &proxy), ProxyRevert::RemoveProxy);
    assert_eq!(proxy_revert(false, &Some(vec![1, 2]), &proxy), ProxyRevert::Keep);
    assert_eq!(proxy_revert(false, &None, &proxy), ProxyRevert::Keep);
    assert!(proxy_is_current(&Some(vec![1, 2, 3]), &proxy));
    assert!(!proxy_is_current(&None, &proxy));
    assert_eq!(DeviceError::EmptyModel.message(), "机型代号不能为空");
}

#[test]
fn uninstall_commands() {
    assert_eq!(
        detect_msix_script(),
        "Get-AppxPackage -Name '5f71dad9-3e77-4ada-9fad-12c2e761288f' | Select-Object -ExpandProperty PackageFullName"
    );
    assert_eq!(answered_name("  Pkg_1.0_x64  \r\n"), Some("Pkg_1.0_x64".to_string()));
    assert_eq!(answered_name("\r\n"), None);
    assert_eq!(remove_service_script("MiService"), "Remove-Service -Name 'MiService'");
    assert!(service_listed(Ok("MiService\r\n")));
    assert!(!service_listed(Ok("")));
    assert!(!service_listed(Err(())));
    assert_eq!(product_services(false), vec!["micont_service", "MiPcContinuityService"]);
    assert_eq!(product_services(true).len(), 9);
    assert_eq!(UninstallError::NothingInstalled.message(), "未检测到已安装的小米电脑管家或小米互联");
}

#[test]
fn discovers_only_xiaomi_pc_manager_installer_executables_by_name() {
    let names: Vec<String> = [
        "NeR5_XiaomiPCManager_feature_p52_5.8.0.74_9900fa23.exe",
        "XiaomiPCManager.exe",
        "NeR5_XiaomiPCManager_feature_p52_5.8.0.74.txt",
        "AAA_XiaomiPCManager_stable_5.8.0.75.exe",
    ]
    .iter()
    .map(|s| s.to_string())
    .collect();
    assert_eq!(installer_order(&names), vec![3, 0], "安装包应按文件名稳定排序");
    let same: Vec<String> = ["b_XiaomiPCManager_x.exe", "A_XIAOMIPCMANAGER_X.EXE", "a_xiaomipcmanager_x.exe"]
        .iter()
        .map(|s| s.to_string())
        .collect();
    assert_eq!(installer_order(&same), vec![1, 2, 0]);
}

#[test]
fn installers_must_be_existing_exe_files() {
    assert_eq!(check_installer("d/setup.EXE", Some("setup.EXE"), true), Ok(()));
    assert_eq!(
        check_installer("d/setup.exe", Some("setup.exe"), false),
        Err(PrepareError::Missing("d/setup.exe".to_string()))
    );
    let e = check_installer("d/setup.msi", Some("setup.msi"), true).unwrap_err();
    assert_eq!(e.message(), "安装包必须是 .exe 文件：d/setup.msi");
    assert!(check_installer("d/.exe", Some(".exe"), true).is_err());
    assert!(check_installer("d", None, true).is_err());
}

#[test]
fn failed_launches_roll_back() {
    assert_eq!(
        rollback_plan(true, true, false, true, true, true),
        RollbackPlan { restore_previous: true, remove_proxy: false, remove_backup: true, remove_temporary: false }
    );
    assert_eq!(
        rollback_plan(false, true, true, true, false, true),
        RollbackPlan { restore_previous: false, remove_proxy: true, remove_backup: false, remove_temporary: true }
    );
    assert_eq!(download_temporary_path("x.exe"), "x.exe.download.tmp");
    assert_eq!(temporary_path("x.dll"), "x.dll.patch.tmp");
}

#[test]
fn powershell_results() {
    assert_eq!(powershell_result(true, "ok".to_string(), "warn"), Ok("ok".to_string()));
    assert_eq!(powershell_result(false, " data ".to_string(), "warn"), Ok(" data ".to_string()));
    assert_eq!(powershell_result(false, " ".to_string(), " bad \n"), Err("PowerShell 执行失败：bad".to_string()));
    assert_eq!(powershell_result(false, String::new(), ""), Err("PowerShell 执行失败（无输出）".to_string()));
}

#[test]
fn interface_language() {
    assert_eq!(lang_from_ui_language(0x0804), Lang::Zh);
    assert_eq!(lang_from_ui_language(0x7C04), Lang::Zh);
    assert_eq!(lang_from_ui_language(0x0409), Lang::En);
    assert_eq!(lang_from_env("zh_CN.UTF-8"), Lang::Zh);
    assert_eq!(lang_from_env("ZH"), Lang::Zh);
    assert_eq!(lang_from_env("en_US"), Lang::En);
    assert_eq!(lang_from_env("z"), Lang::En);
}

#[test]
fn relaunch_arguments() {
    assert!(relaunch_needed(false, false));
    assert!(!relaunch_needed(true, false));
    assert!(!relaunch_needed(false, true));
    assert_eq!(quote_arg("status"), "status");
    assert_eq!(quote_arg(""), "\"\"");
    assert_eq!(quote_arg("C:\\Program Files\\x"), "\"C:\\Program Files\\x\"");
    assert_eq!(quote_arg("a\"b"), "\"a\\\"b\"");
}

#[test]
fn error_texts() {
    assert_eq!(PeError::NotPe32Plus(0x10B).message(), "仅支持 PE32+ (x64)，magic=0x10B");
    assert_eq!(PeError::NotDotNet.message(), "不是 .NET 程序集（无 CLR 头）");
    assert_eq!(MetadataError::TypeNotFound.message("T", "M"), "未找到类型 T");
    assert_eq!(MetadataError::MethodNotFound.message("T", "M"), "类型 T 中未找到方法 *M");
    assert_eq!(InjectError::BodyUnmapped(0x5000).message("T", "M"), "方法体 RVA 0x5000 无法映射");
    assert_eq!(InjectError::Image(PeError::MissingMz).message("T", "M"), "缺少 MZ 头");
}
