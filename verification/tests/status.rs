use mipcmanager_patch::dotnet::InjectOutcome;
use mipcmanager_patch::mipcaudio_lan::FileOutcome;
use mipcmanager_patch::ops::{
    apply_audio_with_options, apply_camera, apply_device, apply_locale, apply_smbios, full_features_available,
    install_from_path, revert_audio, revert_device, revert_locale, status_lines, BroadcastMode,
    ContinuityVersionFacts, FileFacts, ManagerVersionFacts, RouteStep, StatusFacts, RESTART_HINT,
};
use mipcmanager_patch::pc_manager_installer::InstallerKind;

fn file(name: &str, exists: bool, backup: bool) -> FileFacts {
    FileFacts { name: name.to_string(), exists, backup }
}

#[test]
fn status_without_installations() {
    let f = StatusFacts { manager: None, continuity: None };
    assert_eq!(status_lines(&f), vec!["== 小米电脑管家补丁状态 ==", "未探测到安装目录（可用 --dll/--dir 手动指定）。"]);
}

#[test]
fn status_of_both_products() {
    let m = ManagerVersionFacts {
        version_dir: r"C:\M\5.8.0.14".to_string(),
        locale_dll: file("micont_rtm.dll", true, true),
        camera_dll: file("PcControlCenter.dll", true, false),
        audio_states: vec![("MiPCAudio.exe".to_string(), "无线(WiFi)".to_string())],
        route_state: "未配置".to_string(),
        proxy_in_place: false,
        registry_model: Some("TM2424".to_string()),
        smbios_in_place: true,
    };
    let f = StatusFacts {
        manager: Some((r"C:\M".to_string(), Ok(m))),
        continuity: Some((r"C:\C".to_string(), Err("boom".to_string()))),
    };
    assert_eq!(
        status_lines(&f),
        vec![
            "== 小米电脑管家补丁状态 ==",
            "",
            "-- XiaomiPCManager（全功能）--",
            r"安装根目录：C:\M",
            r"最新版本目录：C:\M\5.8.0.14",
            "  micont_rtm.dll | 存在:是 | 备份:有",
            "  PcControlCenter.dll | 存在:是 | 备份:无",
            "  -- 音频流转广播模式 --",
            "     MiPCAudio.exe: 无线(WiFi)",
            "     Wi-Fi 本地路由: 未配置",
            "  -- 设备伪装 --",
            "     msimg32.dll: 未就位 | 注册表机型: TM2424",
            "  -- [实验性] Lyra 特殊适配 --",
            "     SMBIOS 设备身份: 已就位",
            "",
            "-- PcContinuity（小米互联 / 互联互通，仅地区伪装）--",
            r"安装根目录：C:\C",
            "（无法确定版本目录：boom）",
        ]
    );
    let c = StatusFacts {
        manager: None,
        continuity: Some((
            r"C:\C".to_string(),
            Ok(ContinuityVersionFacts { version_dir: r"C:\C\1.1.2.36".to_string(), locale_dll: file("micont_rtm.dll", false, false) }),
        )),
    };
    assert_eq!(
        status_lines(&c)[3..],
        [
            r"安装根目录：C:\C",
            r"最新版本目录：C:\C\1.1.2.36",
            "  micont_rtm.dll | 存在:否 | 备份:无",
            "  摄像头、音频流转和设备伪装：当前版本不可用",
        ]
    );
}

#[test]
fn operation_logs() {
    let mut log = Vec::new();
    apply_locale(&mut log, "p", mipcmanager_patch::locale_spoof::PatchOutcome::Patched, true, "CN");
    assert_eq!(
        log,
        vec![
            "✓ 地区伪装已应用：p".to_string(),
            r"  注册表 HKCU\Control Panel\International\Geo\XCN = CN".to_string(),
            RESTART_HINT.to_string(),
        ]
    );
    let mut log = Vec::new();
    revert_locale(&mut log, "p");
    assert_eq!(log[0], "✓ 已还原地区伪装：p");
    let mut log = Vec::new();
    apply_camera(&mut log, "p", InjectOutcome::AlreadyPatched);
    assert_eq!(log[0], "• 已是补丁状态（跳过）：p");
    let mut log = Vec::new();
    apply_audio_with_options(
        &mut log,
        BroadcastMode::Wired,
        (FileOutcome { patched: 1, already: 0 }, FileOutcome { patched: 0, already: 2 }),
        RouteStep::Removed,
    );
    assert_eq!(
        log,
        vec![
            "✓ 音频流转广播模式已切换为：有线 (LAN)",
            "  MiPCAudio.exe: 改写 1 处, 已是目标 0 处",
            "  idmruntime.dll: 改写 0 处, 已是目标 2 处",
            "  （三处网卡身份已统一 → 手机端应为单设备）",
            "  已移除 Wi-Fi 本地子网优先路由（有线模式下发现与媒体均走有线，无需此路由）。",
            RESTART_HINT,
        ]
    );
    let mut log = Vec::new();
    revert_audio(&mut log, false);
    assert_eq!(log, vec!["✓ 已还原音频流转补丁（MiPCAudio.exe / idmruntime.dll）", RESTART_HINT]);
    let mut log = Vec::new();
    apply_device(&mut log, "TM2309", r"C:\M\5.8");
    assert_eq!(log[1], r"  已释放 msimg32.dll 至 C:\M\5.8");
    assert_eq!(log[2], r"  注册表 HKCU\Software\SmartSharePatch\SpoofDevice = TM2309");
    let mut log = Vec::new();
    revert_device(&mut log);
    assert_eq!(log.len(), 2);
    let mut log = Vec::new();
    apply_smbios(&mut log, "p", mipcmanager_patch::smbios_spoof::PatchOutcome::Patched);
    assert_eq!(log[0], "✓ SMBIOS 设备身份补丁已应用：p");
    assert_eq!(
        install_from_path(InstallerKind::PcContinuity, "x.exe", 42),
        vec![
            "✓ 已启动小米互联 / 互联互通 (PcContinuity)安装包：x.exe",
            "  已释放 msimg32.dll、写入 SpoofDevice=TM2424，注入并旁路 WinVersionMatch(需Win11) + MatchProduct*| PID: 42",
        ]
    );
    assert!(full_features_available(Some("C:\\M")));
    assert!(!full_features_available(None));
}
