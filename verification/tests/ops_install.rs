use mipcmanager_patch::install::{backup_path, latest_version_index, parse_version, running_by_names, ProcessInfo};
use mipcmanager_patch::ops::{
    close_all_on_startup, ensure_full_feature_path_supported, full_feature_verdict, resolve_full_version_dir_from_roots,
    resolve_locale_dll_from_roots, BroadcastMode, FullFeatureError, LocaleProbe,
};
use mipcmanager_patch::uninstall::{uninstall_description, UninstallError};

fn names(v: &[&str]) -> Vec<String> {
    v.iter().map(|s| s.to_string()).collect()
}

fn proc(pid: u32, name: &str) -> ProcessInfo {
    ProcessInfo { pid, name: name.to_string(), exe: None }
}

#[test]
fn backups_sit_beside_the_file() {
    assert_eq!(backup_path(r"C:\x\micont_rtm.dll"), r"C:\x\micont_rtm.dll.orig.bak");
}

#[test]
fn version_names_parse_as_numbers() {
    assert_eq!(parse_version("5.8.0.14"), Some(vec![5, 8, 0, 14]));
    assert_eq!(parse_version("1"), Some(vec![1]));
    assert_eq!(parse_version("+1.2"), Some(vec![1, 2]));
    assert_eq!(parse_version(""), None);
    assert_eq!(parse_version("5.8..14"), None);
    assert_eq!(parse_version("5.8.0.14a"), None);
    assert_eq!(parse_version("Uninstall"), None);
    assert_eq!(parse_version("18446744073709551616"), None);
}

#[test]
fn the_latest_version_directory_is_the_greatest() {
    let dirs = names(&["5.8.0.14", "resources", "5.10.0.1", "5.9.9.99", "5.10.0"]);
    assert_eq!(latest_version_index(&dirs), Some(2));
    let equal = names(&["1.0", "1.0", "0.9"]);
    assert_eq!(latest_version_index(&equal), Some(0));
    assert_eq!(latest_version_index(&names(&["a", "b"])), None);
    assert_eq!(latest_version_index(&Vec::new()), None);
}

#[test]
fn running_processes_are_reported_once_in_order() {
    let procs = vec![
        proc(10, "MiPCAudio.exe"),
        proc(11, "XiaomiPCManager.EXE"),
        proc(12, "mipcaudio.exe"),
        proc(13, "notepad.exe"),
        proc(14, "XiaomiPCManager"),
        proc(99, "MiService.exe"),
    ];
    let wanted: [&str; 3] = ["XiaomiPCManager", "MiPCAudio", "MiService"];
    let got = running_by_names(&procs, &wanted, Some(99));
    assert_eq!(got, vec!["MiPCAudio.exe", "XiaomiPCManager.exe", "mipcaudio.exe"]);
    assert!(running_by_names(&procs, &[], None).is_empty());
}

#[test]
fn locale_auto_resolution_prefers_the_first_usable_root() {
    let probes = vec![
        LocaleProbe::Failed("在 C:\\m 下未找到任何版本目录".to_string()),
        LocaleProbe::Found {
            version_dir: "C:\\c\\1.1.2.36".to_string(),
            dll_path: "C:\\c\\1.1.2.36\\micont_rtm.dll".to_string(),
            exists: true,
        },
    ];
    assert_eq!(resolve_locale_dll_from_roots(&probes).unwrap(), "C:\\c\\1.1.2.36\\micont_rtm.dll");
}

#[test]
fn locale_resolution_errors_list_every_root() {
    let probes = vec![
        LocaleProbe::Found { version_dir: "A".to_string(), dll_path: "A\\micont_rtm.dll".to_string(), exists: false },
        LocaleProbe::Failed("boom".to_string()),
    ];
    assert_eq!(
        resolve_locale_dll_from_roots(&probes).unwrap_err(),
        "未找到可用的 micont_rtm.dll：在 A 中未找到 micont_rtm.dll；boom"
    );
    assert_eq!(
        resolve_locale_dll_from_roots(&Vec::new()).unwrap_err(),
        "未找到 XiaomiPCManager 或 PcContinuity 安装目录"
    );
}

#[test]
fn full_features_need_pc_manager() {
    let versions = names(&["1.1.2.36"]);
    let error = resolve_full_version_dir_from_roots(None, Some("C:\\c"), &versions).unwrap_err();
    assert!(error.message().contains("PcContinuity 暂时仅支持地区伪装"));
    assert_eq!(resolve_full_version_dir_from_roots(None, None, &versions), Err(FullFeatureError::NotInstalled));
    assert_eq!(
        resolve_full_version_dir_from_roots(Some("C:\\m"), None, &names(&["x"])).unwrap_err().message(),
        "在 C:\\m 下未找到任何版本目录"
    );
    assert_eq!(
        resolve_full_version_dir_from_roots(Some("C:\\m"), Some("C:\\c"), &names(&["5.8.0.1", "5.8.0.14"])).unwrap(),
        "5.8.0.14"
    );
}

#[test]
fn paths_inside_pc_continuity_are_refused() {
    let root = "C:\\Program Files\\MI\\PcContinuity";
    assert_eq!(ensure_full_feature_path_supported(root, Some(root)), Err(FullFeatureError::PcContinuityOnly));
    let inside = format!("{root}/1.1.2.36");
    let error = ensure_full_feature_path_supported(&inside, Some(root)).unwrap_err();
    assert!(error.message().contains("PcContinuity 暂时仅支持地区伪装"));
    assert!(ensure_full_feature_path_supported("C:\\other", Some(root)).is_ok());
    assert!(ensure_full_feature_path_supported(root, None).is_ok());
}

#[test]
fn startup_close_message() {
    assert_eq!(close_all_on_startup(0), None);
    assert_eq!(close_all_on_startup(3).unwrap(), "已关闭 3 个小米电脑管家相关进程。");
}

#[test]
fn broadcast_modes_map_to_patch_modes() {
    assert_eq!(BroadcastMode::Wireless.patch_mode(), mipcmanager_patch::mipcaudio_lan::BroadcastMode::Wireless);
    assert_eq!(BroadcastMode::Wired.patch_mode(), mipcmanager_patch::mipcaudio_lan::BroadcastMode::Wired);
}

#[test]
fn uninstall_text_names_the_one_installed_product() {
    let m = uninstall_description(Some("C:\\m"), None).unwrap();
    assert!(m.starts_with("将卸载 小米电脑管家\n\n安装目录：C:\\m\n包含"));
    assert!(m.ends_with("此操作不可逆！"));
    let c = uninstall_description(None, Some("C:\\c")).unwrap();
    assert!(c.starts_with("将卸载 小米互联 / PcContinuity\n\n安装目录：C:\\c\n"));
    assert_eq!(uninstall_description(Some("a"), Some("b")), Err(UninstallError::BothInstalled));
    assert_eq!(uninstall_description(None, None), Err(UninstallError::NothingInstalled));
}

#[test]
fn full_feature_targets_inside_interconnect_are_refused() {
    assert_eq!(full_feature_verdict(true), Err(FullFeatureError::PcContinuityOnly));
    assert_eq!(full_feature_verdict(false), Ok(()));
}
