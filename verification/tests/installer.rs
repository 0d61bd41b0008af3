use mipcmanager_patch::ops::{ensure_install_allowed, InstallBlocked};
use mipcmanager_patch::pc_manager_installer::{
    classify_installer, classify_installer_filename, download_filename, DownloadError, InstallerKind,
};

#[test]
fn install_gating_rejects_coexisting_products() {
    let manager_root = r"C:\Program Files\MI\XiaomiPCManager";
    let continuity_root = r"C:\Program Files\MI\PcContinuity";

    assert!(ensure_install_allowed(InstallerKind::XiaomiPcManager, None, None).is_ok());
    assert!(ensure_install_allowed(InstallerKind::PcContinuity, None, None).is_ok());

    assert!(ensure_install_allowed(InstallerKind::PcContinuity, None, Some(continuity_root)).is_ok());
    let error = ensure_install_allowed(InstallerKind::XiaomiPcManager, None, Some(continuity_root)).unwrap_err();
    assert!(error.message().contains("已安装小米互联"));
    assert_eq!(error, InstallBlocked::PcContinuityInstalled(continuity_root.to_string()));

    assert!(ensure_install_allowed(InstallerKind::XiaomiPcManager, Some(manager_root), None).is_ok());
    let error = ensure_install_allowed(InstallerKind::PcContinuity, Some(manager_root), None).unwrap_err();
    assert!(error.message().contains("已安装小米电脑管家"));
    assert_eq!(error, InstallBlocked::PcManagerInstalled(manager_root.to_string()));
}

#[test]
fn classifies_installer_names_by_product() {
    assert_eq!(
        classify_installer_filename("小米互联最新版本_1.1.2.36_d887cad6.exe"),
        Some(InstallerKind::PcContinuity)
    );
    assert_eq!(classify_installer_filename("小米互联.exe"), Some(InstallerKind::PcContinuity));
    assert_eq!(
        classify_installer_filename("NeR5_XiaomiPCManager_feature_p52_5.8.0.74_9900fa23.exe"),
        Some(InstallerKind::XiaomiPcManager)
    );
    assert_eq!(
        classify_installer_filename("AAA_XiaomiPCManager_stable_5.8.0.75.exe"),
        Some(InstallerKind::XiaomiPcManager)
    );
    assert_eq!(classify_installer_filename("XiaomiPCManager.exe"), None);
    assert_eq!(classify_installer_filename("小米互联最新版本_1.1.2.36.txt"), None);
    assert!(InstallerKind::PcContinuity.deploys_device_proxy());
    assert!(InstallerKind::XiaomiPcManager.deploys_device_proxy());
}

#[test]
fn derives_safe_download_name_from_http_url() {
    assert_eq!(
        download_filename("https://example.com/releases/NeR5_XiaomiPCManager_feature_5.8.0.74.exe?token=abc").unwrap(),
        "NeR5_XiaomiPCManager_feature_5.8.0.74.exe"
    );
    assert_eq!(
        download_filename("https://example.com/download?id=123").unwrap(),
        "XiaomiPCManagerInstaller.exe"
    );
    assert!(download_filename("ftp://example.com/setup.exe").is_err());
}

#[test]
fn classification_ignores_case_of_the_extension_and_infix() {
    assert_eq!(classify_installer_filename("X_XIAOMIPCMANAGER_Y.EXE"), Some(InstallerKind::XiaomiPcManager));
    assert_eq!(classify_installer_filename("_xiaomipcmanager_y.exe"), None);
    assert_eq!(classify_installer_filename("x_xiaomipcmanager_.exe"), None);
}

#[test]
fn installers_are_classified_by_the_file_name_of_their_path() {
    assert_eq!(classify_installer("小米互联最新版本_1.1.2.36_d887cad6.exe"), InstallerKind::PcContinuity);
    assert_eq!(classify_installer("readme.txt"), InstallerKind::XiaomiPcManager);
    assert_eq!(classify_installer("dir/AAA_XiaomiPCManager_stable_5.8.0.75.exe"), InstallerKind::XiaomiPcManager);
}

#[test]
fn download_names_keep_only_safe_characters() {
    assert_eq!(download_filename("HTTP://example.com/a%20b.exe").unwrap(), "XiaomiPCManagerInstaller.exe");
    assert_eq!(download_filename("http://example.com/Setup-1.0_x.EXE#frag").unwrap(), "Setup-1.0_x.EXE");
    assert_eq!(download_filename("file:///setup.exe"), Err(DownloadError::NotHttp));
}

#[test]
fn installer_labels_name_the_product() {
    assert_eq!(InstallerKind::XiaomiPcManager.label(), "小米电脑管家 (XiaomiPCManager)");
    assert_eq!(InstallerKind::PcContinuity.label(), "小米互联 / 互联互通 (PcContinuity)");
}
