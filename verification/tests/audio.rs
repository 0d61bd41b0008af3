use mipcmanager_patch::device_spoof::{ensure_spoof_model, presets, trim, DeviceError};
use mipcmanager_patch::experimental::audio_dual_nic::{auto_fix, diagnose, FixAction, ADVICE_ADD, ADVICE_NONE, DIAG_NO_FILES};
use mipcmanager_patch::i18n::{tr, Lang};
use mipcmanager_patch::infra::bytes::LocateError;
use mipcmanager_patch::mipcaudio_lan::{
    apply, idmruntime_site_list, mipcaudio_site_list, patch_file, site_state, AudioPatchError, BroadcastMode,
    FileOutcome, IFTYPE_ETHERNET, IFTYPE_WIFI,
};

fn mipcaudio_image(v: u8) -> Vec<u8> {
    let mut d = vec![0x90u8; 16];
    d.extend_from_slice(&[0x41, 0x83, 0x79, 0x64, v, 0x75, 0x10]);
    d.extend_from_slice(&[0xCC; 8]);
    d
}

fn idmruntime_image(v1: u8, v2: u8) -> Vec<u8> {
    let mut d = vec![0x90u8; 8];
    d.extend_from_slice(&[0x41, 0x83, 0x7e, 0x64, v1, 0x0F, 0x85, 0x00, 0x01, 0x00, 0x00]);
    d.extend_from_slice(&[0xCC; 4]);
    d.extend_from_slice(&[0x83, 0x7b, 0x64, v2, 0x75, 0x08]);
    d
}

#[test]
fn wired_mode_rewrites_every_selector() {
    let mut a = mipcaudio_image(IFTYPE_WIFI);
    let mut b = idmruntime_image(IFTYPE_WIFI, IFTYPE_ETHERNET);
    let r = apply(&mut a, &mut b, BroadcastMode::Wired).unwrap();
    assert_eq!(r, (FileOutcome { patched: 1, already: 0 }, FileOutcome { patched: 1, already: 1 }));
    assert_eq!(a, mipcaudio_image(IFTYPE_ETHERNET));
    assert_eq!(b, idmruntime_image(IFTYPE_ETHERNET, IFTYPE_ETHERNET));
}

#[test]
fn patching_twice_changes_nothing_more() {
    let mut a = mipcaudio_image(IFTYPE_ETHERNET);
    let sites = mipcaudio_site_list();
    assert_eq!(patch_file(&mut a, &sites, BroadcastMode::Wireless), Ok(FileOutcome { patched: 1, already: 0 }));
    let once = a.clone();
    assert_eq!(patch_file(&mut a, &sites, BroadcastMode::Wireless), Ok(FileOutcome { patched: 0, already: 1 }));
    assert_eq!(a, once);
}

#[test]
fn switching_back_restores_the_bytes() {
    let original = idmruntime_image(IFTYPE_WIFI, IFTYPE_WIFI);
    let mut b = original.clone();
    let sites = idmruntime_site_list();
    patch_file(&mut b, &sites, BroadcastMode::Wired).unwrap();
    assert_eq!(site_state(&b, &sites[0]), Ok(BroadcastMode::Wired));
    patch_file(&mut b, &sites, BroadcastMode::Wireless).unwrap();
    assert_eq!(b, original);
    assert_eq!(site_state(&b, &sites[1]), Ok(BroadcastMode::Wireless));
}

#[test]
fn selectors_that_cannot_be_located_abort() {
    let mut a = mipcaudio_image(0x01);
    let mut b = idmruntime_image(IFTYPE_WIFI, IFTYPE_WIFI);
    let before = b.clone();
    assert_eq!(
        apply(&mut a, &mut b, BroadcastMode::Wired),
        Err(AudioPatchError::MiPcAudio(LocateError::NotFound))
    );
    assert_eq!(b, before);
    let mut twice = mipcaudio_image(IFTYPE_WIFI);
    twice.extend_from_slice(&mipcaudio_image(IFTYPE_WIFI));
    let sites = mipcaudio_site_list();
    assert_eq!(patch_file(&mut twice, &sites, BroadcastMode::Wired), Err(LocateError::NotUnique));
    let mut tiny = vec![0x41u8, 0x83];
    assert_eq!(patch_file(&mut tiny, &sites, BroadcastMode::Wired), Err(LocateError::BufferTooSmall));
}

#[test]
fn mode_labels() {
    assert_eq!(BroadcastMode::Wireless.label(), "无线 (WiFi)");
    assert_eq!(BroadcastMode::Wired.label(), "有线 (LAN)");
    assert_eq!(BroadcastMode::Wireless.iftype(), 0x47);
    assert_eq!(BroadcastMode::Wired.iftype(), 0x06);
}

fn states(s: &str) -> Vec<(String, String)> {
    vec![("MiPCAudio.exe".to_string(), s.to_string()), ("idmruntime.dll".to_string(), s.to_string())]
}

#[test]
fn diagnosis_of_a_consistent_setup() {
    let log = diagnose(&states("无线 (WiFi)"), "已固定 Wi-Fi 本地路由（192.168.50.0/24，接口 13）");
    assert_eq!(log.len(), 5);
    assert_eq!(log[1], "  当前广播模式: 无线 (WiFi)");
    assert_eq!(log[3], "  ✓ 发现身份与媒体出站一致。");
    assert_eq!(log[4], format!("  建议: {ADVICE_NONE}"));
}

#[test]
fn diagnosis_of_a_wireless_mode_without_route() {
    let log = diagnose(&states("无线 (WiFi)"), "未配置");
    assert!(log[3].contains("Wi-Fi 路由缺失"));
    assert_eq!(log[4], format!("  建议: {ADVICE_ADD}"));
    let log = diagnose(&states("有线 (LAN)"), "已固定");
    assert!(log[3].contains("Wi-Fi 路由仍存在"));
    let log = diagnose(&states("未知"), "未配置");
    assert!(log[3].contains("无法判断"));
    let log = diagnose(&Vec::new(), "未配置");
    assert_eq!(log, vec!["== 双网卡音频诊断 ==".to_string(), DIAG_NO_FILES.to_string()]);
}

#[test]
fn experimental_fix_follows_the_broadcast_mode() {
    assert_eq!(auto_fix(&Vec::new()), FixAction::NoAudioFiles);
    assert_eq!(auto_fix(&states("无线 (WiFi)")), FixAction::EnsureWifiRoute);
    assert_eq!(auto_fix(&states("有线 (LAN)")), FixAction::RemoveWifiRoute);
}

#[test]
fn model_codes_are_trimmed() {
    assert_eq!(trim("  TM2424\t\n"), "TM2424");
    assert_eq!(trim("\u{3000}TM 2424\u{A0}"), "TM 2424");
    assert_eq!(ensure_spoof_model(" TM2309 ").unwrap(), "TM2309");
    assert_eq!(ensure_spoof_model(" \t "), Err(DeviceError::EmptyModel));
    assert_eq!(ensure_spoof_model(""), Err(DeviceError::EmptyModel));
    let p = presets();
    assert_eq!((p[0].code, p[1].code), ("TM2424", "TM2309"));
}

#[test]
fn texts_in_both_languages() {
    assert_eq!(tr("btn.apply", Lang::Zh), "应用");
    assert_eq!(tr("btn.apply", Lang::En), "Apply");
    assert_eq!(tr("no.such.key", Lang::En), "no.such.key");
}
