//! Patch logic for Xiaomi PC Manager / PcContinuity installations: byte-level
//! patches, PE and .NET image rewriting, SMBIOS field extraction, x64
//! trampoline generation and the decisions around installers and install roots.

pub mod infra;
pub mod dotnet;
pub mod camera_toast;
pub mod locale_spoof;
pub mod mipcaudio_lan;
pub mod smbios;
pub mod x64_trampoline;
pub mod pc_manager_installer;
pub mod smbios_spoof;
pub mod device_spoof;
pub mod install;
pub mod ops;
pub mod uninstall;
pub mod experimental;
pub mod i18n;
pub mod audio_wifi_route;
pub mod elevate;
pub mod menu;
pub mod patch_run;
