//! Interface text in Chinese and English.
//!
//! Every user-facing text of the command line and the GUIs is looked up by
//! key; Chinese systems (zh-CN, zh-TW, zh-HK, zh-SG and the like) get Chinese,
//! all others English. Operation logs stay in Chinese. The system language is
//! detected by the caller.

use vstd::prelude::*;
use crate::infra::text::str_eq;

verus! {

/// Interface language.
#[derive(Debug, Clone, Copy, PartialEq, Eq)]
pub enum Lang {
    Zh,
    En,
}

/// The Chinese text of `key`; a key without translation is returned as it is.
pub open spec fn spec_tr_zh(key: Seq<char>) -> Seq<char> {
    if key == "app.title"@ {
        "MiPCM Patch"@
    } else if key == "btn.apply"@ {
        "应用"@
    } else if key == "btn.revert"@ {
        "还原"@
    } else if key == "btn.refresh"@ {
        "刷新"@
    } else if key == "btn.cancel"@ {
        "取消"@
    } else if key == "btn.wifi"@ {
        "WiFi"@
    } else if key == "btn.lan"@ {
        "LAN"@
    } else if key == "btn.diagnose"@ {
        "诊断"@
    } else if key == "btn.fix"@ {
        "修复"@
    } else if key == "btn.select"@ {
        "选择"@
    } else if key == "btn.start-install"@ {
        "开始安装"@
    } else if key == "btn.confirm"@ {
        "确认卸载"@
    } else if key == "btn.clear-log"@ {
        "清空日志"@
    } else if key == "btn.browse"@ {
        "选择…"@
    } else if key == "hint.custom"@ {
        "自定义"@
    } else if key == "hint.model.code"@ {
        "机型代号"@
    } else if key == "hint.custom.confirmed"@ {
        "自定义机型已设置"@
    } else if key == "hint.custom.tui"@ {
        "c—自定义"@
    } else if key == "hint.preset.tui"@ {
        "m—切换预设"@
    } else if key == "hint.uninstall.msix"@ {
        "检测并移除 MiDrop Ext MSIX 包，完成后重启资源管理器"@
    } else if key == "hint.uninstall.product"@ {
        "完整卸载主程序、子产品、移除服务、清理临时文件（不可逆！）"@
    } else if key == "hint.uninstall.warn"@ {
        "注意：卸载操作不可逆！"@
    } else if key == "hint.log.empty"@ {
        "操作日志将显示在这里…"@
    } else if key == "hint.install.tui"@ {
        "💡 安装请使用命令行：MiPCM_CLI install"@
    } else if key == "section.status"@ {
        "安装状态"@
    } else if key == "section.patches"@ {
        "补丁操作"@
    } else if key == "section.uninstall"@ {
        "卸载"@
    } else if key == "section.install"@ {
        "安装"@
    } else if key == "section.log"@ {
        "日志"@
    } else if key == "section.confirm.uninstall"@ {
        "确认卸载"@
    } else if key == "section.input.model"@ {
        "自定义机型 — {target_label}"@
    } else if key == "section.status.full"@ {
        "安装状态"@
    } else if key == "patch.locale"@ {
        "地区伪装"@
    } else if key == "patch.camera"@ {
        "摄像头弹窗"@
    } else if key == "patch.audio"@ {
        "音频流转"@
    } else if key == "patch.device"@ {
        "设备伪装"@
    } else if key == "patch.smbios"@ {
        "Lyra SMBIOS (Experimental)"@
    } else if key == "patch.dual-nic"@ {
        "Lyra 双网卡 (Experimental)"@
    } else if key == "patch.locale.detail"@ {
        "地区伪装 (micont_rtm.dll)"@
    } else if key == "patch.camera.detail"@ {
        "摄像头弹窗抑制 (PcControlCenter.dll)"@
    } else if key == "patch.audio.detail"@ {
        "音频流转广播模式"@
    } else if key == "patch.device.detail"@ {
        "设备伪装 (msimg32.dll)"@
    } else if key == "patch.smbios.detail"@ {
        "[实验性] SMBIOS 设备身份"@
    } else if key == "cli.about"@ {
        "小米电脑管家功能增强补丁工具"@
    } else if key == "cli.cmd.status"@ {
        "查看安装信息与补丁状态"@
    } else if key == "cli.cmd.locale"@ {
        "地区伪装（micont_rtm.dll）"@
    } else if key == "cli.cmd.camera"@ {
        "抑制「请确认摄像头状态」弹窗（PcControlCenter.dll）"@
    } else if key == "cli.cmd.audio"@ {
        "MiPCAudio 音频流转广播模式（无线/有线，统一身份并修复双网卡媒体路由）"@
    } else if key == "cli.cmd.device"@ {
        "设备伪装（释放 msimg32.dll + 写入机型注册表）"@
    } else if key == "cli.cmd.smbios"@ {
        "[实验性] SMBIOS 设备身份伪装 — 妙播 / Lyra 特殊适配（micont_rtm.dll IAT Hook）"@
    } else if key == "cli.cmd.install"@ {
        "安装小米电脑管家 / 小米互联（自动识别安装包所属产品）"@
    } else if key == "cli.cmd.uninstall"@ {
        "卸载 MiDrop Ext MSIX 包 或 小米电脑管家 / 小米互联"@
    } else if key == "cli.cmd.apply"@ {
        "应用补丁"@
    } else if key == "cli.cmd.revert"@ {
        "还原补丁"@
    } else if key == "cli.cmd.audio.apply"@ {
        "切换广播模式"@
    } else if key == "cli.cmd.audio.revert"@ {
        "还原音频流转补丁"@
    } else if key == "cli.cmd.audio.experimental"@ {
        "[实验性] 双网卡同网段音频修复：诊断并自动对齐 Wi-Fi 路由与广播模式"@
    } else if key == "cli.cmd.device.apply"@ {
        "应用设备伪装"@
    } else if key == "cli.cmd.device.revert"@ {
        "还原设备伪装"@
    } else if key == "cli.cmd.smbios.apply"@ {
        "应用 SMBIOS 设备身份伪装"@
    } else if key == "cli.cmd.smbios.revert"@ {
        "还原 SMBIOS 设备身份伪装"@
    } else if key == "cli.cmd.msix"@ {
        "卸载 MiDrop Ext MSIX 包（完成后重启资源管理器）"@
    } else if key == "cli.cmd.product"@ {
        "完整卸载小米电脑管家 / 小米互联（主程序 + 子产品 + 服务 + 文件清理，不可逆）"@
    } else if key == "cli.arg.dll"@ {
        "指定目标 DLL 路径（默认自动探测安装目录）"@
    } else if key == "cli.arg.no_kill"@ {
        "不自动关闭相关进程"@
    } else if key == "cli.arg.region"@ {
        "伪装地区代码（默认 CN）"@
    } else if key == "cli.arg.no_registry"@ {
        "不修改注册表"@
    } else if key == "cli.arg.mode"@ {
        "广播介质：wifi（无线，默认）或 lan（有线）"@
    } else if key == "cli.arg.dir"@ {
        "指定版本目录（默认自动探测）"@
    } else if key == "cli.arg.no_wifi_route"@ {
        "不自动管理 Wi-Fi 本地子网优先路由（无线模式下用于修复双网卡同网段断流）"@
    } else if key == "cli.arg.dry_run"@ {
        "仅诊断，不执行修复"@
    } else if key == "cli.arg.model"@ {
        "机型代号（默认 TM2424）"@
    } else if key == "cli.arg.installer"@ {
        "显式指定 .exe 安装包"@
    } else if key == "cli.arg.url"@ {
        "从 HTTP(S) 地址下载安装包"@
    } else if key == "cli.error"@ {
        "错误：{error}"@
    } else if key == "cli.confirm.uninstall"@ {
        "确认卸载？输入 y 继续："@
    } else if key == "cli.cancelled.uninstall"@ {
        "已取消卸载。"@
    } else if key == "cli.cancelled.install"@ {
        "已取消安装。"@
    } else if key == "cli.downloading"@ {
        "正在下载安装包到 {path}"@
    } else if key == "cli.found.installer"@ {
        "已找到{kind}安装包：{path}"@
    } else if key == "cli.multiple.installers"@ {
        "找到多个安装包："@
    } else if key == "cli.choose.installer"@ {
        "请选择安装包："@
    } else if key == "cli.invalid.choice"@ {
        "无效的安装包选择"@
    } else if key == "cli.no.installer.found"@ {
        "未在 Patcher 同目录找到安装包（小米电脑管家 `*_XiaomiPCManager_*.exe` 或小米互联 `小米互联*.exe`）。"@
    } else if key == "cli.cancel.option"@ {
        "取消"@
    } else if key == "cli.choose.option"@ {
        "请选择："@
    } else if key == "cli.menu.download_url"@ {
        "输入下载网址"@
    } else if key == "cli.menu.local_file"@ {
        "指定本地 .exe 安装包"@
    } else if key == "cli.prompt.url"@ {
        "请输入 HTTP(S) 下载地址："@
    } else if key == "cli.prompt.path"@ {
        "请输入 .exe 安装包路径："@
    } else if key == "cli.invalid.selection"@ {
        "无效选择"@
    } else if key == "install.kind.manager"@ {
        "小米电脑管家 (XiaomiPCManager)"@
    } else if key == "install.kind.continuity"@ {
        "小米互联 / 互联互通 (PcContinuity)"@
    } else if key == "install.title"@ {
        "安装小米电脑管家 / 小米互联"@
    } else if key == "install.download.placeholder"@ {
        "HTTP(S) 下载地址…"@
    } else if key == "install.file.placeholder"@ {
        "选择本地 .exe 安装包…"@
    } else if key == "install.download.and.install"@ {
        "下载并安装"@
    } else if key == "gui.downloading.start"@ {
        "开始下载：{url}"@
    } else if key == "gui.op.locale.apply"@ {
        "地区伪装"@
    } else if key == "gui.op.locale.revert"@ {
        "地区伪装·还原"@
    } else if key == "gui.op.device.apply"@ {
        "设备伪装({model})"@
    } else if key == "gui.op.device.revert"@ {
        "设备伪装·还原"@
    } else if key == "gui.op.camera.apply"@ {
        "摄像头"@
    } else if key == "gui.op.camera.revert"@ {
        "摄像头·还原"@
    } else if key == "gui.op.audio.wifi"@ {
        "音频·WiFi"@
    } else if key == "gui.op.audio.lan"@ {
        "音频·LAN"@
    } else if key == "gui.op.audio.revert"@ {
        "音频·还原"@
    } else if key == "gui.op.dualnic.diagnose"@ {
        "双网卡·诊断"@
    } else if key == "gui.op.dualnic.fix"@ {
        "双网卡·修复"@
    } else if key == "gui.op.smbios.apply"@ {
        "SMBIOS({model})"@
    } else if key == "gui.op.smbios.revert"@ {
        "SMBIOS·还原"@
    } else if key == "gui.op.uninstall.msix"@ {
        "卸载MSIX"@
    } else if key == "gui.op.uninstall.product"@ {
        "卸载产品"@
    } else if key == "gui.op.install"@ {
        "安装({path})"@
    } else if key == "gui.warn.no_full"@ {
        "未检测到完整版 XiaomiPCManager\n摄像头/音频/设备伪装不可用。"@
    } else if key == "gui.warn.recent_error"@ {
        "最近错误："@
    } else if key == "gui.log.title"@ {
        "运行日志"@
    } else if key == "gui.uninstall.msix"@ {
        "卸载 MiDrop Ext (MSIX)"@
    } else if key == "gui.uninstall.product"@ {
        "卸载小米电脑管家 / 小米互联"@
    } else if key == "gui.browse.title"@ {
        "选择安装包"@
    } else if key == "gui.browse.filter"@ {
        "安装包"@
    } else if key == "tui.shortcuts.global"@ {
        "退出"@
    } else if key == "tui.shortcuts.tab"@ {
        "切换面板"@
    } else if key == "tui.shortcuts.patches"@ {
        "q:退出  Tab:切换面板  ↑↓:选择补丁  ←→:选择按钮  Enter:执行  R:刷新  m:切换预设  c:自定义机型"@
    } else if key == "tui.shortcuts.install"@ {
        "q:退出  Tab:切换面板  Enter:查看安装指引"@
    } else if key == "tui.shortcuts.uninstall"@ {
        "q:退出  Tab:切换面板  ↑↓:选择  Enter:执行"@
    } else if key == "tui.shortcuts.log"@ {
        "q:退出  Tab:切换面板  ↑↓/PgUp/PgDn/Home/End:滚动日志"@
    } else if key == "tui.shortcuts.input"@ {
        "输入机型代号…  Enter:确认  Esc:取消  Backspace:退格"@
    } else if key == "tui.shortcuts.scroll"@ {
        "滚动"@
    } else if key == "tui.shortcuts.confirm"@ {
        "按 y 确认  ·  按 n / Esc 取消"@
    } else if key == "tui.shortcuts.input.confirm"@ {
        "Enter 确认 · Esc 取消"@
    } else if key == "tui.shortcuts.model.hint"@ {
        "m—切换预设  c—自定义"@
    } else if key == "tui.shortcuts.refresh"@ {
        "R — 刷新状态"@
    } else if key == "tui.model.custom"@ {
        "(自定义)"@
    } else if key == "tui.model.preset"@ {
        "机型"@
    } else if key == "tui.log.start"@ {
        "▶ 开始：{label}"@
    } else if key == "tui.log.done"@ {
        "✓ 完成：{label}"@
    } else if key == "tui.log.failed"@ {
        "{label} 失败：{error}"@
    } else if key == "tui.log.cancelled"@ {
        "已取消操作"@
    } else if key == "tui.log.error"@ {
        "❌ 错误：{error}"@
    } else if key == "tui.install.hint.focused"@ {
        "按 Enter — 查看安装指引（请在命令行中使用 install 子命令）"@
    } else if key == "tui.install.hint.unfocused"@ {
        "切换到本面板后按 Enter 查看安装指引"@
    } else if key == "tui.install.hint.cmd1"@ {
        "或：MiPCM_CLI install --installer <路径>"@
    } else if key == "tui.install.hint.cmd2"@ {
        "或：MiPCM_CLI install --url <下载地址>"@
    } else if key == "tui.uninstall.key.hint"@ {
        "  Enter — 执行  "@
    } else if key == "tui.input.device"@ {
        "设备伪装"@
    } else if key == "tui.input.smbios"@ {
        "SMBIOS 伪装"@
    } else if key == "tui.input.title"@ {
        " 自定义机型 — {target_label} "@
    } else if key == "tui.status.loading"@ {
        "（正在加载…）"@
    } else if key == "tui.confirm.title"@ {
        " ⚠ 确认卸载 "@
    } else if key == "tui.log.model.set"@ {
        "📱 自定义设备机型已设置：{model}"@
    } else if key == "tui.log.smbios.set"@ {
        "📱 自定义 SMBIOS 机型已设置：{model}"@
    } else if key == "tui.log.model.switch"@ {
        "📱 设备伪装机型切换为：{code} [{name}]"@
    } else if key == "tui.log.smbios.switch"@ {
        "📱 SMBIOS 机型切换为：{code} [{name}]"@
    } else if key == "tui.op.locale.apply"@ {
        "地区伪装 · 应用"@
    } else if key == "tui.op.locale.revert"@ {
        "地区伪装 · 还原"@
    } else if key == "tui.op.camera.apply"@ {
        "摄像头弹窗抑制 · 应用"@
    } else if key == "tui.op.camera.revert"@ {
        "摄像头弹窗抑制 · 还原"@
    } else if key == "tui.op.audio.wifi"@ {
        "音频流转 · WiFi"@
    } else if key == "tui.op.audio.lan"@ {
        "音频流转 · LAN"@
    } else if key == "tui.op.audio.revert"@ {
        "音频流转 · 还原"@
    } else if key == "tui.op.device.apply"@ {
        "设备伪装 · 应用({model})"@
    } else if key == "tui.op.device.revert"@ {
        "设备伪装 · 还原"@
    } else if key == "tui.op.smbios.apply"@ {
        "SMBIOS · 应用({model})"@
    } else if key == "tui.op.smbios.revert"@ {
        "SMBIOS · 还原"@
    } else if key == "tui.op.uninstall.msix"@ {
        "卸载 MiDrop Ext (MSIX)"@
    } else if key == "tui.op.uninstall.product"@ {
        "卸载小米电脑管家 / 小米互联"@
    } else if key == "uninstall.start.manager"@ {
        "开始卸载小米电脑管家：{root}"@
    } else if key == "uninstall.start.continuity"@ {
        "开始卸载小米互联 / PcContinuity：{root}"@
    } else if key == "uninstall.running.uninstaller"@ {
        "  正在运行卸载程序：{exe}"@
    } else if key == "uninstall.remover.not.removed"@ {
        "  ⚠ 卸载程序未删除自身，卸载可能未完成：{exe}"@
    } else if key == "uninstall.main.done"@ {
        "  ✓ 主程序卸载完成"@
    } else if key == "uninstall.removing.services"@ {
        "  正在移除服务…"@
    } else if key == "uninstall.service.removed"@ {
        "    ✓ 已删除服务：{name}"@
    } else if key == "uninstall.service.failed"@ {
        "    ⚠ 删除服务 {name} 失败：{error}"@
    } else if key == "uninstall.cleaning.files"@ {
        "  正在清理文件…"@
    } else if key == "uninstall.done.manager"@ {
        "✓ 小米电脑管家卸载完成"@
    } else if key == "uninstall.done.continuity"@ {
        "✓ 小米互联 / PcContinuity 卸载完成"@
    } else if key == "uninstall.sub.not.installed"@ {
        "  - {label} 未安装，跳过"@
    } else if key == "uninstall.sub.uninstalling"@ {
        "  正在卸载 {label}：{exe}"@
    } else if key == "uninstall.sub.done"@ {
        "    ✓ {label} 卸载完成"@
    } else if key == "uninstall.sub.not.removed"@ {
        "    ⚠ {label} 卸载程序未删除自身，卸载可能未完成"@
    } else if key == "uninstall.sub.failed"@ {
        "    ⚠ 卸载 {label} 失败：{error}"@
    } else if key == "uninstall.sub.no.uninstaller"@ {
        "    ⚠ {label} 目录存在但未找到 uninstall.exe"@
    } else if key == "uninstall.sub.no.version"@ {
        "    ⚠ {label} 目录存在但无版本子目录"@
    } else if key == "uninstall.clean.programdata"@ {
        "    ✓ 已删除 C:\\ProgramData\\MI"@
    } else if key == "uninstall.clean.programdata.failed"@ {
        "    ⚠ 清理 C:\\ProgramData\\MI 失败：{error}"@
    } else if key == "uninstall.clean.dir"@ {
        "    ✓ 已删除 {path}"@
    } else if key == "uninstall.clean.dir.failed"@ {
        "    ⚠ 清理 {path} 失败：{error}"@
    } else if key == "uninstall.desc.manager"@ {
        "将卸载 小米电脑管家\n\n安装目录：{root}\n包含：主程序、AIService、MiService\n将删除所有相关服务与临时文件\n\n此操作不可逆！"@
    } else if key == "uninstall.desc.continuity"@ {
        "将卸载 小米互联 / PcContinuity\n\n安装目录：{root}\n将删除所有相关服务与临时文件\n\n此操作不可逆！"@
    } else if key == "uninstall.desc.coexistence"@ {
        "同时检测到小米电脑管家和小米互联。\n当前不支持同时安装，请逐一卸载。"@
    } else if key == "uninstall.desc.none"@ {
        "未检测到已安装的小米电脑管家或小米互联"@
    } else if key == "uninstall.no.msix"@ {
        "未检测到 MiDrop Ext MSIX 包"@
    } else if key == "uninstall.msix.done"@ {
        "✓ 已卸载 MiDrop Ext MSIX 包：{pkg}"@
    } else if key == "uninstall.explorer.restarted"@ {
        "✓ 已重启资源管理器"@
    } else if key == "ops.restart.hint"@ {
        "提示：补丁已完成，请手动重新启动小米电脑管家使其生效。"@
    } else {
        key
    }
}

/// The English text of `key`; a key without translation is returned as it is.
pub open spec fn spec_tr_en(key: Seq<char>) -> Seq<char> {
    if key == "app.title"@ {
        "MiPCM Patch"@
    } else if key == "btn.apply"@ {
        "Apply"@
    } else if key == "btn.revert"@ {
        "Revert"@
    } else if key == "btn.refresh"@ {
        "Refresh"@
    } else if key == "btn.cancel"@ {
        "Cancel"@
    } else if key == "btn.wifi"@ {
        "WiFi"@
    } else if key == "btn.lan"@ {
        "LAN"@
    } else if key == "btn.diagnose"@ {
        "Diagnose"@
    } else if key == "btn.fix"@ {
        "Fix"@
    } else if key == "btn.select"@ {
        "Select"@
    } else if key == "btn.start-install"@ {
        "Start Install"@
    } else if key == "btn.confirm"@ {
        "Confirm Uninstall"@
    } else if key == "btn.clear-log"@ {
        "Clear Log"@
    } else if key == "btn.browse"@ {
        "Browse…"@
    } else if key == "hint.custom"@ {
        "Custom"@
    } else if key == "hint.model.code"@ {
        "Model Code"@
    } else if key == "hint.custom.confirmed"@ {
        "Custom model set"@
    } else if key == "hint.custom.tui"@ {
        "c—Custom"@
    } else if key == "hint.preset.tui"@ {
        "m—Cycle Preset"@
    } else if key == "hint.uninstall.msix"@ {
        "Detect and remove MiDrop Ext MSIX package, then restart Explorer"@
    } else if key == "hint.uninstall.product"@ {
        "Complete uninstall: main program, sub-products, services, temp files (irreversible!)"@
    } else if key == "hint.uninstall.warn"@ {
        "Warning: uninstall is irreversible!"@
    } else if key == "hint.log.empty"@ {
        "Operation log will appear here…"@
    } else if key == "hint.install.tui"@ {
        "💡 Install via command line: MiPCM_CLI install"@
    } else if key == "section.status"@ {
        "Install Status"@
    } else if key == "section.patches"@ {
        "Patch Operations"@
    } else if key == "section.uninstall"@ {
        "Uninstall"@
    } else if key == "section.install"@ {
        "Install"@
    } else if key == "section.log"@ {
        "Log"@
    } else if key == "section.confirm.uninstall"@ {
        "Confirm Uninstall"@
    } else if key == "section.input.model"@ {
        " Custom Model — {target_label} "@
    } else if key == "section.status.full"@ {
        "Install Status"@
    } else if key == "patch.locale"@ {
        "Locale Spoof"@
    } else if key == "patch.camera"@ {
        "Camera Toast"@
    } else if key == "patch.audio"@ {
        "Audio Stream"@
    } else if key == "patch.device"@ {
        "Device Spoof"@
    } else if key == "patch.smbios"@ {
        "Lyra SMBIOS (Experimental)"@
    } else if key == "patch.dual-nic"@ {
        "Lyra Dual NIC (Experimental)"@
    } else if key == "patch.locale.detail"@ {
        "Locale Spoof (micont_rtm.dll)"@
    } else if key == "patch.camera.detail"@ {
        "Camera Toast Suppression (PcControlCenter.dll)"@
    } else if key == "patch.audio.detail"@ {
        "Audio Stream Broadcast Mode"@
    } else if key == "patch.device.detail"@ {
        "Device Spoof (msimg32.dll)"@
    } else if key == "patch.smbios.detail"@ {
        "[Experimental] SMBIOS Device Identity"@
    } else if key == "cli.about"@ {
        "MiPCManager Enhancement Patch Tool"@
    } else if key == "cli.cmd.status"@ {
        "View installation info and patch status"@
    } else if key == "cli.cmd.locale"@ {
        "Locale spoof (micont_rtm.dll)"@
    } else if key == "cli.cmd.camera"@ {
        "Suppress camera toast (PcControlCenter.dll)"@
    } else if key == "cli.cmd.audio"@ {
        "MiPCAudio broadcast mode (wireless/wired, unified identity, dual-NIC fix)"@
    } else if key == "cli.cmd.device"@ {
        "Device spoof (deploy msimg32.dll + registry model)"@
    } else if key == "cli.cmd.smbios"@ {
        "[Experimental] SMBIOS device identity — Lyra special adaptation (micont_rtm.dll IAT Hook)"@
    } else if key == "cli.cmd.install"@ {
        "Install MiPCManager / MiContinuity (auto-detect product type)"@
    } else if key == "cli.cmd.uninstall"@ {
        "Uninstall MiDrop Ext MSIX or MiPCManager / MiContinuity"@
    } else if key == "cli.cmd.apply"@ {
        "Apply patch"@
    } else if key == "cli.cmd.revert"@ {
        "Revert patch"@
    } else if key == "cli.cmd.audio.apply"@ {
        "Switch broadcast mode"@
    } else if key == "cli.cmd.audio.revert"@ {
        "Revert audio stream patch"@
    } else if key == "cli.cmd.audio.experimental"@ {
        "[Experimental] Dual-NIC same-subnet audio fix: diagnose and align Wi-Fi routing with broadcast mode"@
    } else if key == "cli.cmd.device.apply"@ {
        "Apply device spoof"@
    } else if key == "cli.cmd.device.revert"@ {
        "Revert device spoof"@
    } else if key == "cli.cmd.smbios.apply"@ {
        "Apply SMBIOS device identity"@
    } else if key == "cli.cmd.smbios.revert"@ {
        "Revert SMBIOS device identity"@
    } else if key == "cli.cmd.msix"@ {
        "Uninstall MiDrop Ext MSIX package (restart Explorer afterwards)"@
    } else if key == "cli.cmd.product"@ {
        "Complete uninstall of MiPCManager / MiContinuity (main + sub-products + services + cleanup, irreversible)"@
    } else if key == "cli.arg.dll"@ {
        "Specify target DLL path (auto-detect install dir by default)"@
    } else if key == "cli.arg.no_kill"@ {
        "Don't auto-close related processes"@
    } else if key == "cli.arg.region"@ {
        "Spoof region code (default CN)"@
    } else if key == "cli.arg.no_registry"@ {
        "Don't modify registry"@
    } else if key == "cli.arg.mode"@ {
        "Broadcast medium: wifi (wireless, default) or lan (wired)"@
    } else if key == "cli.arg.dir"@ {
        "Specify version directory (auto-detect by default)"@
    } else if key == "cli.arg.no_wifi_route"@ {
        "Don't auto-manage Wi-Fi local-subnet route (used in wireless mode for dual-NIC same-subnet fix)"@
    } else if key == "cli.arg.dry_run"@ {
        "Diagnose only, don't execute fix"@
    } else if key == "cli.arg.model"@ {
        "Model code (default TM2424)"@
    } else if key == "cli.arg.installer"@ {
        "Explicitly specify .exe installer"@
    } else if key == "cli.arg.url"@ {
        "Download from HTTP(S) URL"@
    } else if key == "cli.error"@ {
        "Error: {error}"@
    } else if key == "cli.confirm.uninstall"@ {
        "Confirm uninstall? Enter y to continue: "@
    } else if key == "cli.cancelled.uninstall"@ {
        "Uninstall cancelled."@
    } else if key == "cli.cancelled.install"@ {
        "Install cancelled."@
    } else if key == "cli.downloading"@ {
        "Downloading installer to {path}"@
    } else if key == "cli.found.installer"@ {
        "Found {kind} installer: {path}"@
    } else if key == "cli.multiple.installers"@ {
        "Found multiple installers:"@
    } else if key == "cli.choose.installer"@ {
        "Choose installer: "@
    } else if key == "cli.invalid.choice"@ {
        "Invalid installer selection"@
    } else if key == "cli.no.installer.found"@ {
        "No installer found in Patcher directory (`*_XiaomiPCManager_*.exe` or `小米互联*.exe`)."@
    } else if key == "cli.cancel.option"@ {
        "Cancel"@
    } else if key == "cli.choose.option"@ {
        "Choose: "@
    } else if key == "cli.menu.download_url"@ {
        "Enter download URL"@
    } else if key == "cli.menu.local_file"@ {
        "Specify local .exe installer"@
    } else if key == "cli.prompt.url"@ {
        "Enter HTTP(S) download URL: "@
    } else if key == "cli.prompt.path"@ {
        "Enter .exe installer path: "@
    } else if key == "cli.invalid.selection"@ {
        "Invalid selection"@
    } else if key == "install.kind.manager"@ {
        "MiPCManager (XiaomiPCManager)"@
    } else if key == "install.kind.continuity"@ {
        "MiContinuity / Interconnection (PcContinuity)"@
    } else if key == "install.title"@ {
        "Install MiPCManager / MiContinuity"@
    } else if key == "install.download.placeholder"@ {
        "HTTP(S) download URL…"@
    } else if key == "install.file.placeholder"@ {
        "Choose local .exe installer…"@
    } else if key == "install.download.and.install"@ {
        "Download & Install"@
    } else if key == "gui.downloading.start"@ {
        "Downloading: {url}"@
    } else if key == "gui.op.locale.apply"@ {
        "Locale Spoof"@
    } else if key == "gui.op.locale.revert"@ {
        "Locale Spoof · Revert"@
    } else if key == "gui.op.device.apply"@ {
        "Device Spoof({model})"@
    } else if key == "gui.op.device.revert"@ {
        "Device Spoof · Revert"@
    } else if key == "gui.op.camera.apply"@ {
        "Camera Toast"@
    } else if key == "gui.op.camera.revert"@ {
        "Camera Toast · Revert"@
    } else if key == "gui.op.audio.wifi"@ {
        "Audio · WiFi"@
    } else if key == "gui.op.audio.lan"@ {
        "Audio · LAN"@
    } else if key == "gui.op.audio.revert"@ {
        "Audio · Revert"@
    } else if key == "gui.op.dualnic.diagnose"@ {
        "Dual NIC · Diagnose"@
    } else if key == "gui.op.dualnic.fix"@ {
        "Dual NIC · Fix"@
    } else if key == "gui.op.smbios.apply"@ {
        "SMBIOS({model})"@
    } else if key == "gui.op.smbios.revert"@ {
        "SMBIOS · Revert"@
    } else if key == "gui.op.uninstall.msix"@ {
        "Uninstall MSIX"@
    } else if key == "gui.op.uninstall.product"@ {
        "Uninstall Product"@
    } else if key == "gui.op.install"@ {
        "Install({path})"@
    } else if key == "gui.warn.no_full"@ {
        "Full XiaomiPCManager not detected\nCamera / Audio / Device spoof unavailable."@
    } else if key == "gui.warn.recent_error"@ {
        "Recent error: "@
    } else if key == "gui.log.title"@ {
        "Operation Log"@
    } else if key == "gui.uninstall.msix"@ {
        "Uninstall MiDrop Ext (MSIX)"@
    } else if key == "gui.uninstall.product"@ {
        "Uninstall MiPCManager / MiContinuity"@
    } else if key == "gui.browse.title"@ {
        "Choose Installer"@
    } else if key == "gui.browse.filter"@ {
        "Installer"@
    } else if key == "tui.shortcuts.global"@ {
        "Quit"@
    } else if key == "tui.shortcuts.tab"@ {
        "Switch Panel"@
    } else if key == "tui.shortcuts.patches"@ {
        "q:Quit  Tab:Panel  Up/Down:Select  Left/Right:Button  Enter:Run  R:Refresh  m:Preset  c:Custom"@
    } else if key == "tui.shortcuts.install"@ {
        "q:Quit  Tab:Panel  Enter:Install Guide"@
    } else if key == "tui.shortcuts.uninstall"@ {
        "q:Quit  Tab:Panel  Up/Down:Select  Enter:Run"@
    } else if key == "tui.shortcuts.log"@ {
        "q:Quit  Tab:Panel  Up/Down/PgUp/PgDn/Home/End:Scroll"@
    } else if key == "tui.shortcuts.input"@ {
        "Enter model code…  Enter:Confirm  Esc:Cancel  Backspace:Delete"@
    } else if key == "tui.shortcuts.scroll"@ {
        "Scroll"@
    } else if key == "tui.shortcuts.confirm"@ {
        "Press y to confirm  ·  Press n / Esc to cancel"@
    } else if key == "tui.shortcuts.input.confirm"@ {
        "Enter Confirm · Esc Cancel"@
    } else if key == "tui.shortcuts.model.hint"@ {
        "m—Cycle Preset  c—Custom"@
    } else if key == "tui.shortcuts.refresh"@ {
        "R — Refresh"@
    } else if key == "tui.model.custom"@ {
        "(Custom)"@
    } else if key == "tui.model.preset"@ {
        "Model"@
    } else if key == "tui.log.start"@ {
        "▶ Start: {label}"@
    } else if key == "tui.log.done"@ {
        "✓ Done: {label}"@
    } else if key == "tui.log.failed"@ {
        "{label} failed: {error}"@
    } else if key == "tui.log.cancelled"@ {
        "Operation cancelled"@
    } else if key == "tui.log.error"@ {
        "❌ Error: {error}"@
    } else if key == "tui.install.hint.focused"@ {
        "Press Enter — view install guide (use install subcommand in CLI)"@
    } else if key == "tui.install.hint.unfocused"@ {
        "Switch to this panel and press Enter to view install guide"@
    } else if key == "tui.install.hint.cmd1"@ {
        "   or: MiPCM_CLI install --installer <path>"@
    } else if key == "tui.install.hint.cmd2"@ {
        "   or: MiPCM_CLI install --url <url>"@
    } else if key == "tui.uninstall.key.hint"@ {
        "  Enter — Run  "@
    } else if key == "tui.input.device"@ {
        "Device Spoof"@
    } else if key == "tui.input.smbios"@ {
        "SMBIOS Spoof"@
    } else if key == "tui.input.title"@ {
        " Custom Model — {target_label} "@
    } else if key == "tui.status.loading"@ {
        "(Loading…)"@
    } else if key == "tui.confirm.title"@ {
        " ⚠ Confirm Uninstall "@
    } else if key == "tui.log.model.set"@ {
        "📱 Custom device model set: {model}"@
    } else if key == "tui.log.smbios.set"@ {
        "📱 Custom SMBIOS model set: {model}"@
    } else if key == "tui.log.model.switch"@ {
        "📱 Device model switched to: {code} [{name}]"@
    } else if key == "tui.log.smbios.switch"@ {
        "📱 SMBIOS model switched to: {code} [{name}]"@
    } else if key == "tui.op.locale.apply"@ {
        "Locale Spoof · Apply"@
    } else if key == "tui.op.locale.revert"@ {
        "Locale Spoof · Revert"@
    } else if key == "tui.op.camera.apply"@ {
        "Camera Toast · Apply"@
    } else if key == "tui.op.camera.revert"@ {
        "Camera Toast · Revert"@
    } else if key == "tui.op.audio.wifi"@ {
        "Audio Stream · WiFi"@
    } else if key == "tui.op.audio.lan"@ {
        "Audio Stream · LAN"@
    } else if key == "tui.op.audio.revert"@ {
        "Audio Stream · Revert"@
    } else if key == "tui.op.device.apply"@ {
        "Device Spoof · Apply({model})"@
    } else if key == "tui.op.device.revert"@ {
        "Device Spoof · Revert"@
    } else if key == "tui.op.smbios.apply"@ {
        "SMBIOS · Apply({model})"@
    } else if key == "tui.op.smbios.revert"@ {
        "SMBIOS · Revert"@
    } else if key == "tui.op.uninstall.msix"@ {
        "Uninstall MiDrop Ext (MSIX)"@
    } else if key == "tui.op.uninstall.product"@ {
        "Uninstall MiPCManager / MiContinuity"@
    } else if key == "uninstall.start.manager"@ {
        "Starting uninstall of MiPCManager: {root}"@
    } else if key == "uninstall.start.continuity"@ {
        "Starting uninstall of MiContinuity / PcContinuity: {root}"@
    } else if key == "uninstall.running.uninstaller"@ {
        "  Running uninstaller: {exe}"@
    } else if key == "uninstall.remover.not.removed"@ {
        "  ⚠ Uninstaller did not delete itself, uninstall may be incomplete: {exe}"@
    } else if key == "uninstall.main.done"@ {
        "  ✓ Main program uninstall complete"@
    } else if key == "uninstall.removing.services"@ {
        "  Removing services…"@
    } else if key == "uninstall.service.removed"@ {
        "    ✓ Service removed: {name}"@
    } else if key == "uninstall.service.failed"@ {
        "    ⚠ Failed to remove service {name}: {error}"@
    } else if key == "uninstall.cleaning.files"@ {
        "  Cleaning files…"@
    } else if key == "uninstall.done.manager"@ {
        "✓ MiPCManager uninstall complete"@
    } else if key == "uninstall.done.continuity"@ {
        "✓ MiContinuity / PcContinuity uninstall complete"@
    } else if key == "uninstall.sub.not.installed"@ {
        "  - {label} not installed, skipped"@
    } else if key == "uninstall.sub.uninstalling"@ {
        "  Uninstalling {label}: {exe}"@
    } else if key == "uninstall.sub.done"@ {
        "    ✓ {label} uninstall complete"@
    } else if key == "uninstall.sub.not.removed"@ {
        "    ⚠ {label} uninstaller did not delete itself, uninstall may be incomplete"@
    } else if key == "uninstall.sub.failed"@ {
        "    ⚠ {label} uninstall failed: {error}"@
    } else if key == "uninstall.sub.no.uninstaller"@ {
        "    ⚠ {label} directory exists but uninstall.exe not found"@
    } else if key == "uninstall.sub.no.version"@ {
        "    ⚠ {label} directory exists but no version subdirectory"@
    } else if key == "uninstall.clean.programdata"@ {
        "    ✓ Removed C:\\ProgramData\\MI"@
    } else if key == "uninstall.clean.programdata.failed"@ {
        "    ⚠ Failed to clean C:\\ProgramData\\MI: {error}"@
    } else if key == "uninstall.clean.dir"@ {
        "    ✓ Removed {path}"@
    } else if key == "uninstall.clean.dir.failed"@ {
        "    ⚠ Failed to clean {path}: {error}"@
    } else if key == "uninstall.desc.manager"@ {
        "Will uninstall MiPCManager\n\nInstall dir: {root}\nIncludes: main app, AIService, MiService\nWill remove all services and temp files\n\nThis is irreversible!"@
    } else if key == "uninstall.desc.continuity"@ {
        "Will uninstall MiContinuity / PcContinuity\n\nInstall dir: {root}\nWill remove all services and temp files\n\nThis is irreversible!"@
    } else if key == "uninstall.desc.coexistence"@ {
        "Both MiPCManager and MiContinuity detected.\nCurrently does not support co-installation. Please uninstall one first."@
    } else if key == "uninstall.desc.none"@ {
        "No installed MiPCManager or MiContinuity detected"@
    } else if key == "uninstall.no.msix"@ {
        "MiDrop Ext MSIX package not detected"@
    } else if key == "uninstall.msix.done"@ {
        "✓ Uninstalled MiDrop Ext MSIX: {pkg}"@
    } else if key == "uninstall.explorer.restarted"@ {
        "✓ Explorer restarted"@
    } else if key == "ops.restart.hint"@ {
        "Hint: Patches applied. Please restart MiPCManager manually for changes to take effect."@
    } else {
        key
    }
}

/// The text of `key` in `lang`.
pub open spec fn spec_tr(key: Seq<char>, lang: Lang) -> Seq<char> {
    match lang {
        Lang::Zh => spec_tr_zh(key),
        Lang::En => spec_tr_en(key),
    }
}

/// Looks up the Chinese text.
fn tr_zh(key: &str) -> (r: &str)
    ensures
        r@ == spec_tr_zh(key@),
{
    if str_eq(key, "app.title") {
        "MiPCM Patch"
    } else if str_eq(key, "btn.apply") {
        "应用"
    } else if str_eq(key, "btn.revert") {
        "还原"
    } else if str_eq(key, "btn.refresh") {
        "刷新"
    } else if str_eq(key, "btn.cancel") {
        "取消"
    } else if str_eq(key, "btn.wifi") {
        "WiFi"
    } else if str_eq(key, "btn.lan") {
        "LAN"
    } else if str_eq(key, "btn.diagnose") {
        "诊断"
    } else if str_eq(key, "btn.fix") {
        "修复"
    } else if str_eq(key, "btn.select") {
        "选择"
    } else if str_eq(key, "btn.start-install") {
        "开始安装"
    } else if str_eq(key, "btn.confirm") {
        "确认卸载"
    } else if str_eq(key, "btn.clear-log") {
        "清空日志"
    } else if str_eq(key, "btn.browse") {
        "选择…"
    } else if str_eq(key, "hint.custom") {
        "自定义"
    } else if str_eq(key, "hint.model.code") {
        "机型代号"
    } else if str_eq(key, "hint.custom.confirmed") {
        "自定义机型已设置"
    } else if str_eq(key, "hint.custom.tui") {
        "c—自定义"
    } else if str_eq(key, "hint.preset.tui") {
        "m—切换预设"
    } else if str_eq(key, "hint.uninstall.msix") {
        "检测并移除 MiDrop Ext MSIX 包，完成后重启资源管理器"
    } else if str_eq(key, "hint.uninstall.product") {
        "完整卸载主程序、子产品、移除服务、清理临时文件（不可逆！）"
    } else if str_eq(key, "hint.uninstall.warn") {
        "注意：卸载操作不可逆！"
    } else if str_eq(key, "hint.log.empty") {
        "操作日志将显示在这里…"
    } else if str_eq(key, "hint.install.tui") {
        "💡 安装请使用命令行：MiPCM_CLI install"
    } else if str_eq(key, "section.status") {
        "安装状态"
    } else if str_eq(key, "section.patches") {
        "补丁操作"
    } else if str_eq(key, "section.uninstall") {
        "卸载"
    } else if str_eq(key, "section.install") {
        "安装"
    } else if str_eq(key, "section.log") {
        "日志"
    } else if str_eq(key, "section.confirm.uninstall") {
        "确认卸载"
    } else if str_eq(key, "section.input.model") {
        "自定义机型 — {target_label}"
    } else if str_eq(key, "section.status.full") {
        "安装状态"
    } else if str_eq(key, "patch.locale") {
        "地区伪装"
    } else if str_eq(key, "patch.camera") {
        "摄像头弹窗"
    } else if str_eq(key, "patch.audio") {
        "音频流转"
    } else if str_eq(key, "patch.device") {
        "设备伪装"
    } else if str_eq(key, "patch.smbios") {
        "Lyra SMBIOS (Experimental)"
    } else if str_eq(key, "patch.dual-nic") {
        "Lyra 双网卡 (Experimental)"
    } else if str_eq(key, "patch.locale.detail") {
        "地区伪装 (micont_rtm.dll)"
    } else if str_eq(key, "patch.camera.detail") {
        "摄像头弹窗抑制 (PcControlCenter.dll)"
    } else if str_eq(key, "patch.audio.detail") {
        "音频流转广播模式"
    } else if str_eq(key, "patch.device.detail") {
        "设备伪装 (msimg32.dll)"
    } else if str_eq(key, "patch.smbios.detail") {
        "[实验性] SMBIOS 设备身份"
    } else if str_eq(key, "cli.about") {
        "小米电脑管家功能增强补丁工具"
    } else if str_eq(key, "cli.cmd.status") {
        "查看安装信息与补丁状态"
    } else if str_eq(key, "cli.cmd.locale") {
        "地区伪装（micont_rtm.dll）"
    } else if str_eq(key, "cli.cmd.camera") {
        "抑制「请确认摄像头状态」弹窗（PcControlCenter.dll）"
    } else if str_eq(key, "cli.cmd.audio") {
        "MiPCAudio 音频流转广播模式（无线/有线，统一身份并修复双网卡媒体路由）"
    } else if str_eq(key, "cli.cmd.device") {
        "设备伪装（释放 msimg32.dll + 写入机型注册表）"
    } else if str_eq(key, "cli.cmd.smbios") {
        "[实验性] SMBIOS 设备身份伪装 — 妙播 / Lyra 特殊适配（micont_rtm.dll IAT Hook）"
    } else if str_eq(key, "cli.cmd.install") {
        "安装小米电脑管家 / 小米互联（自动识别安装包所属产品）"
    } else if str_eq(key, "cli.cmd.uninstall") {
        "卸载 MiDrop Ext MSIX 包 或 小米电脑管家 / 小米互联"
    } else if str_eq(key, "cli.cmd.apply") {
        "应用补丁"
    } else if str_eq(key, "cli.cmd.revert") {
        "还原补丁"
    } else if str_eq(key, "cli.cmd.audio.apply") {
        "切换广播模式"
    } else if str_eq(key, "cli.cmd.audio.revert") {
        "还原音频流转补丁"
    } else if str_eq(key, "cli.cmd.audio.experimental") {
        "[实验性] 双网卡同网段音频修复：诊断并自动对齐 Wi-Fi 路由与广播模式"
    } else if str_eq(key, "cli.cmd.device.apply") {
        "应用设备伪装"
    } else if str_eq(key, "cli.cmd.device.revert") {
        "还原设备伪装"
    } else if str_eq(key, "cli.cmd.smbios.apply") {
        "应用 SMBIOS 设备身份伪装"
    } else if str_eq(key, "cli.cmd.smbios.revert") {
        "还原 SMBIOS 设备身份伪装"
    } else if str_eq(key, "cli.cmd.msix") {
        "卸载 MiDrop Ext MSIX 包（完成后重启资源管理器）"
    } else if str_eq(key, "cli.cmd.product") {
        "完整卸载小米电脑管家 / 小米互联（主程序 + 子产品 + 服务 + 文件清理，不可逆）"
    } else if str_eq(key, "cli.arg.dll") {
        "指定目标 DLL 路径（默认自动探测安装目录）"
    } else if str_eq(key, "cli.arg.no_kill") {
        "不自动关闭相关进程"
    } else if str_eq(key, "cli.arg.region") {
        "伪装地区代码（默认 CN）"
    } else if str_eq(key, "cli.arg.no_registry") {
        "不修改注册表"
    } else if str_eq(key, "cli.arg.mode") {
        "广播介质：wifi（无线，默认）或 lan（有线）"
    } else if str_eq(key, "cli.arg.dir") {
        "指定版本目录（默认自动探测）"
    } else if str_eq(key, "cli.arg.no_wifi_route") {
        "不自动管理 Wi-Fi 本地子网优先路由（无线模式下用于修复双网卡同网段断流）"
    } else if str_eq(key, "cli.arg.dry_run") {
        "仅诊断，不执行修复"
    } else if str_eq(key, "cli.arg.model") {
        "机型代号（默认 TM2424）"
    } else if str_eq(key, "cli.arg.installer") {
        "显式指定 .exe 安装包"
    } else if str_eq(key, "cli.arg.url") {
        "从 HTTP(S) 地址下载安装包"
    } else if str_eq(key, "cli.error") {
        "错误：{error}"
    } else if str_eq(key, "cli.confirm.uninstall") {
        "确认卸载？输入 y 继续："
    } else if str_eq(key, "cli.cancelled.uninstall") {
        "已取消卸载。"
    } else if str_eq(key, "cli.cancelled.install") {
        "已取消安装。"
    } else if str_eq(key, "cli.downloading") {
        "正在下载安装包到 {path}"
    } else if str_eq(key, "cli.found.installer") {
        "已找到{kind}安装包：{path}"
    } else if str_eq(key, "cli.multiple.installers") {
        "找到多个安装包："
    } else if str_eq(key, "cli.choose.installer") {
        "请选择安装包："
    } else if str_eq(key, "cli.invalid.choice") {
        "无效的安装包选择"
    } else if str_eq(key, "cli.no.installer.found") {
        "未在 Patcher 同目录找到安装包（小米电脑管家 `*_XiaomiPCManager_*.exe` 或小米互联 `小米互联*.exe`）。"
    } else if str_eq(key, "cli.cancel.option") {
        "取消"
    } else if str_eq(key, "cli.choose.option") {
        "请选择："
    } else if str_eq(key, "cli.menu.download_url") {
        "输入下载网址"
    } else if str_eq(key, "cli.menu.local_file") {
        "指定本地 .exe 安装包"
    } else if str_eq(key, "cli.prompt.url") {
        "请输入 HTTP(S) 下载地址："
    } else if str_eq(key, "cli.prompt.path") {
        "请输入 .exe 安装包路径："
    } else if str_eq(key, "cli.invalid.selection") {
        "无效选择"
    } else if str_eq(key, "install.kind.manager") {
        "小米电脑管家 (XiaomiPCManager)"
    } else if str_eq(key, "install.kind.continuity") {
        "小米互联 / 互联互通 (PcContinuity)"
    } else if str_eq(key, "install.title") {
        "安装小米电脑管家 / 小米互联"
    } else if str_eq(key, "install.download.placeholder") {
        "HTTP(S) 下载地址…"
    } else if str_eq(key, "install.file.placeholder") {
        "选择本地 .exe 安装包…"
    } else if str_eq(key, "install.download.and.install") {
        "下载并安装"
    } else if str_eq(key, "gui.downloading.start") {
        "开始下载：{url}"
    } else if str_eq(key, "gui.op.locale.apply") {
        "地区伪装"
    } else if str_eq(key, "gui.op.locale.revert") {
        "地区伪装·还原"
    } else if str_eq(key, "gui.op.device.apply") {
        "设备伪装({model})"
    } else if str_eq(key, "gui.op.device.revert") {
        "设备伪装·还原"
    } else if str_eq(key, "gui.op.camera.apply") {
        "摄像头"
    } else if str_eq(key, "gui.op.camera.revert") {
        "摄像头·还原"
    } else if str_eq(key, "gui.op.audio.wifi") {
        "音频·WiFi"
    } else if str_eq(key, "gui.op.audio.lan") {
        "音频·LAN"
    } else if str_eq(key, "gui.op.audio.revert") {
        "音频·还原"
    } else if str_eq(key, "gui.op.dualnic.diagnose") {
        "双网卡·诊断"
    } else if str_eq(key, "gui.op.dualnic.fix") {
        "双网卡·修复"
    } else if str_eq(key, "gui.op.smbios.apply") {
        "SMBIOS({model})"
    } else if str_eq(key, "gui.op.smbios.revert") {
        "SMBIOS·还原"
    } else if str_eq(key, "gui.op.uninstall.msix") {
        "卸载MSIX"
    } else if str_eq(key, "gui.op.uninstall.product") {
        "卸载产品"
    } else if str_eq(key, "gui.op.install") {
        "安装({path})"
    } else if str_eq(key, "gui.warn.no_full") {
        "未检测到完整版 XiaomiPCManager\n摄像头/音频/设备伪装不可用。"
    } else if str_eq(key, "gui.warn.recent_error") {
        "最近错误："
    } else if str_eq(key, "gui.log.title") {
        "运行日志"
    } else if str_eq(key, "gui.uninstall.msix") {
        "卸载 MiDrop Ext (MSIX)"
    } else if str_eq(key, "gui.uninstall.product") {
        "卸载小米电脑管家 / 小米互联"
    } else if str_eq(key, "gui.browse.title") {
        "选择安装包"
    } else if str_eq(key, "gui.browse.filter") {
        "安装包"
    } else if str_eq(key, "tui.shortcuts.global") {
        "退出"
    } else if str_eq(key, "tui.shortcuts.tab") {
        "切换面板"
    } else if str_eq(key, "tui.shortcuts.patches") {
        "q:退出  Tab:切换面板  ↑↓:选择补丁  ←→:选择按钮  Enter:执行  R:刷新  m:切换预设  c:自定义机型"
    } else if str_eq(key, "tui.shortcuts.install") {
        "q:退出  Tab:切换面板  Enter:查看安装指引"
    } else if str_eq(key, "tui.shortcuts.uninstall") {
        "q:退出  Tab:切换面板  ↑↓:选择  Enter:执行"
    } else if str_eq(key, "tui.shortcuts.log") {
        "q:退出  Tab:切换面板  ↑↓/PgUp/PgDn/Home/End:滚动日志"
    } else if str_eq(key, "tui.shortcuts.input") {
        "输入机型代号…  Enter:确认  Esc:取消  Backspace:退格"
    } else if str_eq(key, "tui.shortcuts.scroll") {
        "滚动"
    } else if str_eq(key, "tui.shortcuts.confirm") {
        "按 y 确认  ·  按 n / Esc 取消"
    } else if str_eq(key, "tui.shortcuts.input.confirm") {
        "Enter 确认 · Esc 取消"
    } else if str_eq(key, "tui.shortcuts.model.hint") {
        "m—切换预设  c—自定义"
    } else if str_eq(key, "tui.shortcuts.refresh") {
        "R — 刷新状态"
    } else if str_eq(key, "tui.model.custom") {
        "(自定义)"
    } else if str_eq(key, "tui.model.preset") {
        "机型"
    } else if str_eq(key, "tui.log.start") {
        "▶ 开始：{label}"
    } else if str_eq(key, "tui.log.done") {
        "✓ 完成：{label}"
    } else if str_eq(key, "tui.log.failed") {
        "{label} 失败：{error}"
    } else if str_eq(key, "tui.log.cancelled") {
        "已取消操作"
    } else if str_eq(key, "tui.log.error") {
        "❌ 错误：{error}"
    } else if str_eq(key, "tui.install.hint.focused") {
        "按 Enter — 查看安装指引（请在命令行中使用 install 子命令）"
    } else if str_eq(key, "tui.install.hint.unfocused") {
        "切换到本面板后按 Enter 查看安装指引"
    } else if str_eq(key, "tui.install.hint.cmd1") {
        "或：MiPCM_CLI install --installer <路径>"
    } else if str_eq(key, "tui.install.hint.cmd2") {
        "或：MiPCM_CLI install --url <下载地址>"
    } else if str_eq(key, "tui.uninstall.key.hint") {
        "  Enter — 执行  "
    } else if str_eq(key, "tui.input.device") {
        "设备伪装"
    } else if str_eq(key, "tui.input.smbios") {
        "SMBIOS 伪装"
    } else if str_eq(key, "tui.input.title") {
        " 自定义机型 — {target_label} "
    } else if str_eq(key, "tui.status.loading") {
        "（正在加载…）"
    } else if str_eq(key, "tui.confirm.title") {
        " ⚠ 确认卸载 "
    } else if str_eq(key, "tui.log.model.set") {
        "📱 自定义设备机型已设置：{model}"
    } else if str_eq(key, "tui.log.smbios.set") {
        "📱 自定义 SMBIOS 机型已设置：{model}"
    } else if str_eq(key, "tui.log.model.switch") {
        "📱 设备伪装机型切换为：{code} [{name}]"
    } else if str_eq(key, "tui.log.smbios.switch") {
        "📱 SMBIOS 机型切换为：{code} [{name}]"
    } else if str_eq(key, "tui.op.locale.apply") {
        "地区伪装 · 应用"
    } else if str_eq(key, "tui.op.locale.revert") {
        "地区伪装 · 还原"
    } else if str_eq(key, "tui.op.camera.apply") {
        "摄像头弹窗抑制 · 应用"
    } else if str_eq(key, "tui.op.camera.revert") {
        "摄像头弹窗抑制 · 还原"
    } else if str_eq(key, "tui.op.audio.wifi") {
        "音频流转 · WiFi"
    } else if str_eq(key, "tui.op.audio.lan") {
        "音频流转 · LAN"
    } else if str_eq(key, "tui.op.audio.revert") {
        "音频流转 · 还原"
    } else if str_eq(key, "tui.op.device.apply") {
        "设备伪装 · 应用({model})"
    } else if str_eq(key, "tui.op.device.revert") {
        "设备伪装 · 还原"
    } else if str_eq(key, "tui.op.smbios.apply") {
        "SMBIOS · 应用({model})"
    } else if str_eq(key, "tui.op.smbios.revert") {
        "SMBIOS · 还原"
    } else if str_eq(key, "tui.op.uninstall.msix") {
        "卸载 MiDrop Ext (MSIX)"
    } else if str_eq(key, "tui.op.uninstall.product") {
        "卸载小米电脑管家 / 小米互联"
    } else if str_eq(key, "uninstall.start.manager") {
        "开始卸载小米电脑管家：{root}"
    } else if str_eq(key, "uninstall.start.continuity") {
        "开始卸载小米互联 / PcContinuity：{root}"
    } else if str_eq(key, "uninstall.running.uninstaller") {
        "  正在运行卸载程序：{exe}"
    } else if str_eq(key, "uninstall.remover.not.removed") {
        "  ⚠ 卸载程序未删除自身，卸载可能未完成：{exe}"
    } else if str_eq(key, "uninstall.main.done") {
        "  ✓ 主程序卸载完成"
    } else if str_eq(key, "uninstall.removing.services") {
        "  正在移除服务…"
    } else if str_eq(key, "uninstall.service.removed") {
        "    ✓ 已删除服务：{name}"
    } else if str_eq(key, "uninstall.service.failed") {
        "    ⚠ 删除服务 {name} 失败：{error}"
    } else if str_eq(key, "uninstall.cleaning.files") {
        "  正在清理文件…"
    } else if str_eq(key, "uninstall.done.manager") {
        "✓ 小米电脑管家卸载完成"
    } else if str_eq(key, "uninstall.done.continuity") {
        "✓ 小米互联 / PcContinuity 卸载完成"
    } else if str_eq(key, "uninstall.sub.not.installed") {
        "  - {label} 未安装，跳过"
    } else if str_eq(key, "uninstall.sub.uninstalling") {
        "  正在卸载 {label}：{exe}"
    } else if str_eq(key, "uninstall.sub.done") {
        "    ✓ {label} 卸载完成"
    } else if str_eq(key, "uninstall.sub.not.removed") {
        "    ⚠ {label} 卸载程序未删除自身，卸载可能未完成"
    } else if str_eq(key, "uninstall.sub.failed") {
        "    ⚠ 卸载 {label} 失败：{error}"
    } else if str_eq(key, "uninstall.sub.no.uninstaller") {
        "    ⚠ {label} 目录存在但未找到 uninstall.exe"
    } else if str_eq(key, "uninstall.sub.no.version") {
        "    ⚠ {label} 目录存在但无版本子目录"
    } else if str_eq(key, "uninstall.clean.programdata") {
        "    ✓ 已删除 C:\\ProgramData\\MI"
    } else if str_eq(key, "uninstall.clean.programdata.failed") {
        "    ⚠ 清理 C:\\ProgramData\\MI 失败：{error}"
    } else if str_eq(key, "uninstall.clean.dir") {
        "    ✓ 已删除 {path}"
    } else if str_eq(key, "uninstall.clean.dir.failed") {
        "    ⚠ 清理 {path} 失败：{error}"
    } else if str_eq(key, "uninstall.desc.manager") {
        "将卸载 小米电脑管家\n\n安装目录：{root}\n包含：主程序、AIService、MiService\n将删除所有相关服务与临时文件\n\n此操作不可逆！"
    } else if str_eq(key, "uninstall.desc.continuity") {
        "将卸载 小米互联 / PcContinuity\n\n安装目录：{root}\n将删除所有相关服务与临时文件\n\n此操作不可逆！"
    } else if str_eq(key, "uninstall.desc.coexistence") {
        "同时检测到小米电脑管家和小米互联。\n当前不支持同时安装，请逐一卸载。"
    } else if str_eq(key, "uninstall.desc.none") {
        "未检测到已安装的小米电脑管家或小米互联"
    } else if str_eq(key, "uninstall.no.msix") {
        "未检测到 MiDrop Ext MSIX 包"
    } else if str_eq(key, "uninstall.msix.done") {
        "✓ 已卸载 MiDrop Ext MSIX 包：{pkg}"
    } else if str_eq(key, "uninstall.explorer.restarted") {
        "✓ 已重启资源管理器"
    } else if str_eq(key, "ops.restart.hint") {
        "提示：补丁已完成，请手动重新启动小米电脑管家使其生效。"
    } else {
        key
    }
}

/// Looks up the English text.
fn tr_en(key: &str) -> (r: &str)
    ensures
        r@ == spec_tr_en(key@),
{
    if str_eq(key, "app.title") {
        "MiPCM Patch"
    } else if str_eq(key, "btn.apply") {
        "Apply"
    } else if str_eq(key, "btn.revert") {
        "Revert"
    } else if str_eq(key, "btn.refresh") {
        "Refresh"
    } else if str_eq(key, "btn.cancel") {
        "Cancel"
    } else if str_eq(key, "btn.wifi") {
        "WiFi"
    } else if str_eq(key, "btn.lan") {
        "LAN"
    } else if str_eq(key, "btn.diagnose") {
        "Diagnose"
    } else if str_eq(key, "btn.fix") {
        "Fix"
    } else if str_eq(key, "btn.select") {
        "Select"
    } else if str_eq(key, "btn.start-install") {
        "Start Install"
    } else if str_eq(key, "btn.confirm") {
        "Confirm Uninstall"
    } else if str_eq(key, "btn.clear-log") {
        "Clear Log"
    } else if str_eq(key, "btn.browse") {
        "Browse…"
    } else if str_eq(key, "hint.custom") {
        "Custom"
    } else if str_eq(key, "hint.model.code") {
        "Model Code"
    } else if str_eq(key, "hint.custom.confirmed") {
        "Custom model set"
    } else if str_eq(key, "hint.custom.tui") {
        "c—Custom"
    } else if str_eq(key, "hint.preset.tui") {
        "m—Cycle Preset"
    } else if str_eq(key, "hint.uninstall.msix") {
        "Detect and remove MiDrop Ext MSIX package, then restart Explorer"
    } else if str_eq(key, "hint.uninstall.product") {
        "Complete uninstall: main program, sub-products, services, temp files (irreversible!)"
    } else if str_eq(key, "hint.uninstall.warn") {
        "Warning: uninstall is irreversible!"
    } else if str_eq(key, "hint.log.empty") {
        "Operation log will appear here…"
    } else if str_eq(key, "hint.install.tui") {
        "💡 Install via command line: MiPCM_CLI install"
    } else if str_eq(key, "section.status") {
        "Install Status"
    } else if str_eq(key, "section.patches") {
        "Patch Operations"
    } else if str_eq(key, "section.uninstall") {
        "Uninstall"
    } else if str_eq(key, "section.install") {
        "Install"
    } else if str_eq(key, "section.log") {
        "Log"
    } else if str_eq(key, "section.confirm.uninstall") {
        "Confirm Uninstall"
    } else if str_eq(key, "section.input.model") {
        " Custom Model — {target_label} "
    } else if str_eq(key, "section.status.full") {
        "Install Status"
    } else if str_eq(key, "patch.locale") {
        "Locale Spoof"
    } else if str_eq(key, "patch.camera") {
        "Camera Toast"
    } else if str_eq(key, "patch.audio") {
        "Audio Stream"
    } else if str_eq(key, "patch.device") {
        "Device Spoof"
    } else if str_eq(key, "patch.smbios") {
        "Lyra SMBIOS (Experimental)"
    } else if str_eq(key, "patch.dual-nic") {
        "Lyra Dual NIC (Experimental)"
    } else if str_eq(key, "patch.locale.detail") {
        "Locale Spoof (micont_rtm.dll)"
    } else if str_eq(key, "patch.camera.detail") {
        "Camera Toast Suppression (PcControlCenter.dll)"
    } else if str_eq(key, "patch.audio.detail") {
        "Audio Stream Broadcast Mode"
    } else if str_eq(key, "patch.device.detail") {
        "Device Spoof (msimg32.dll)"
    } else if str_eq(key, "patch.smbios.detail") {
        "[Experimental] SMBIOS Device Identity"
    } else if str_eq(key, "cli.about") {
        "MiPCManager Enhancement Patch Tool"
    } else if str_eq(key, "cli.cmd.status") {
        "View installation info and patch status"
    } else if str_eq(key, "cli.cmd.locale") {
        "Locale spoof (micont_rtm.dll)"
    } else if str_eq(key, "cli.cmd.camera") {
        "Suppress camera toast (PcControlCenter.dll)"
    } else if str_eq(key, "cli.cmd.audio") {
        "MiPCAudio broadcast mode (wireless/wired, unified identity, dual-NIC fix)"
    } else if str_eq(key, "cli.cmd.device") {
        "Device spoof (deploy msimg32.dll + registry model)"
    } else if str_eq(key, "cli.cmd.smbios") {
        "[Experimental] SMBIOS device identity — Lyra special adaptation (micont_rtm.dll IAT Hook)"
    } else if str_eq(key, "cli.cmd.install") {
        "Install MiPCManager / MiContinuity (auto-detect product type)"
    } else if str_eq(key, "cli.cmd.uninstall") {
        "Uninstall MiDrop Ext MSIX or MiPCManager / MiContinuity"
    } else if str_eq(key, "cli.cmd.apply") {
        "Apply patch"
    } else if str_eq(key, "cli.cmd.revert") {
        "Revert patch"
    } else if str_eq(key, "cli.cmd.audio.apply") {
        "Switch broadcast mode"
    } else if str_eq(key, "cli.cmd.audio.revert") {
        "Revert audio stream patch"
    } else if str_eq(key, "cli.cmd.audio.experimental") {
        "[Experimental] Dual-NIC same-subnet audio fix: diagnose and align Wi-Fi routing with broadcast mode"
    } else if str_eq(key, "cli.cmd.device.apply") {
        "Apply device spoof"
    } else if str_eq(key, "cli.cmd.device.revert") {
        "Revert device spoof"
    } else if str_eq(key, "cli.cmd.smbios.apply") {
        "Apply SMBIOS device identity"
    } else if str_eq(key, "cli.cmd.smbios.revert") {
        "Revert SMBIOS device identity"
    } else if str_eq(key, "cli.cmd.msix") {
        "Uninstall MiDrop Ext MSIX package (restart Explorer afterwards)"
    } else if str_eq(key, "cli.cmd.product") {
        "Complete uninstall of MiPCManager / MiContinuity (main + sub-products + services + cleanup, irreversible)"
    } else if str_eq(key, "cli.arg.dll") {
        "Specify target DLL path (auto-detect install dir by default)"
    } else if str_eq(key, "cli.arg.no_kill") {
        "Don't auto-close related processes"
    } else if str_eq(key, "cli.arg.region") {
        "Spoof region code (default CN)"
    } else if str_eq(key, "cli.arg.no_registry") {
        "Don't modify registry"
    } else if str_eq(key, "cli.arg.mode") {
        "Broadcast medium: wifi (wireless, default) or lan (wired)"
    } else if str_eq(key, "cli.arg.dir") {
        "Specify version directory (auto-detect by default)"
    } else if str_eq(key, "cli.arg.no_wifi_route") {
        "Don't auto-manage Wi-Fi local-subnet route (used in wireless mode for dual-NIC same-subnet fix)"
    } else if str_eq(key, "cli.arg.dry_run") {
        "Diagnose only, don't execute fix"
    } else if str_eq(key, "cli.arg.model") {
        "Model code (default TM2424)"
    } else if str_eq(key, "cli.arg.installer") {
        "Explicitly specify .exe installer"
    } else if str_eq(key, "cli.arg.url") {
        "Download from HTTP(S) URL"
    } else if str_eq(key, "cli.error") {
        "Error: {error}"
    } else if str_eq(key, "cli.confirm.uninstall") {
        "Confirm uninstall? Enter y to continue: "
    } else if str_eq(key, "cli.cancelled.uninstall") {
        "Uninstall cancelled."
    } else if str_eq(key, "cli.cancelled.install") {
        "Install cancelled."
    } else if str_eq(key, "cli.downloading") {
        "Downloading installer to {path}"
    } else if str_eq(key, "cli.found.installer") {
        "Found {kind} installer: {path}"
    } else if str_eq(key, "cli.multiple.installers") {
        "Found multiple installers:"
    } else if str_eq(key, "cli.choose.installer") {
        "Choose installer: "
    } else if str_eq(key, "cli.invalid.choice") {
        "Invalid installer selection"
    } else if str_eq(key, "cli.no.installer.found") {
        "No installer found in Patcher directory (`*_XiaomiPCManager_*.exe` or `小米互联*.exe`)."
    } else if str_eq(key, "cli.cancel.option") {
        "Cancel"
    } else if str_eq(key, "cli.choose.option") {
        "Choose: "
    } else if str_eq(key, "cli.menu.download_url") {
        "Enter download URL"
    } else if str_eq(key, "cli.menu.local_file") {
        "Specify local .exe installer"
    } else if str_eq(key, "cli.prompt.url") {
        "Enter HTTP(S) download URL: "
    } else if str_eq(key, "cli.prompt.path") {
        "Enter .exe installer path: "
    } else if str_eq(key, "cli.invalid.selection") {
        "Invalid selection"
    } else if str_eq(key, "install.kind.manager") {
        "MiPCManager (XiaomiPCManager)"
    } else if str_eq(key, "install.kind.continuity") {
        "MiContinuity / Interconnection (PcContinuity)"
    } else if str_eq(key, "install.title") {
        "Install MiPCManager / MiContinuity"
    } else if str_eq(key, "install.download.placeholder") {
        "HTTP(S) download URL…"
    } else if str_eq(key, "install.file.placeholder") {
        "Choose local .exe installer…"
    } else if str_eq(key, "install.download.and.install") {
        "Download & Install"
    } else if str_eq(key, "gui.downloading.start") {
        "Downloading: {url}"
    } else if str_eq(key, "gui.op.locale.apply") {
        "Locale Spoof"
    } else if str_eq(key, "gui.op.locale.revert") {
        "Locale Spoof · Revert"
    } else if str_eq(key, "gui.op.device.apply") {
        "Device Spoof({model})"
    } else if str_eq(key, "gui.op.device.revert") {
        "Device Spoof · Revert"
    } else if str_eq(key, "gui.op.camera.apply") {
        "Camera Toast"
    } else if str_eq(key, "gui.op.camera.revert") {
        "Camera Toast · Revert"
    } else if str_eq(key, "gui.op.audio.wifi") {
        "Audio · WiFi"
    } else if str_eq(key, "gui.op.audio.lan") {
        "Audio · LAN"
    } else if str_eq(key, "gui.op.audio.revert") {
        "Audio · Revert"
    } else if str_eq(key, "gui.op.dualnic.diagnose") {
        "Dual NIC · Diagnose"
    } else if str_eq(key, "gui.op.dualnic.fix") {
        "Dual NIC · Fix"
    } else if str_eq(key, "gui.op.smbios.apply") {
        "SMBIOS({model})"
    } else if str_eq(key, "gui.op.smbios.revert") {
        "SMBIOS · Revert"
    } else if str_eq(key, "gui.op.uninstall.msix") {
        "Uninstall MSIX"
    } else if str_eq(key, "gui.op.uninstall.product") {
        "Uninstall Product"
    } else if str_eq(key, "gui.op.install") {
        "Install({path})"
    } else if str_eq(key, "gui.warn.no_full") {
        "Full XiaomiPCManager not detected\nCamera / Audio / Device spoof unavailable."
    } else if str_eq(key, "gui.warn.recent_error") {
        "Recent error: "
    } else if str_eq(key, "gui.log.title") {
        "Operation Log"
    } else if str_eq(key, "gui.uninstall.msix") {
        "Uninstall MiDrop Ext (MSIX)"
    } else if str_eq(key, "gui.uninstall.product") {
        "Uninstall MiPCManager / MiContinuity"
    } else if str_eq(key, "gui.browse.title") {
        "Choose Installer"
    } else if str_eq(key, "gui.browse.filter") {
        "Installer"
    } else if str_eq(key, "tui.shortcuts.global") {
        "Quit"
    } else if str_eq(key, "tui.shortcuts.tab") {
        "Switch Panel"
    } else if str_eq(key, "tui.shortcuts.patches") {
        "q:Quit  Tab:Panel  Up/Down:Select  Left/Right:Button  Enter:Run  R:Refresh  m:Preset  c:Custom"
    } else if str_eq(key, "tui.shortcuts.install") {
        "q:Quit  Tab:Panel  Enter:Install Guide"
    } else if str_eq(key, "tui.shortcuts.uninstall") {
        "q:Quit  Tab:Panel  Up/Down:Select  Enter:Run"
    } else if str_eq(key, "tui.shortcuts.log") {
        "q:Quit  Tab:Panel  Up/Down/PgUp/PgDn/Home/End:Scroll"
    } else if str_eq(key, "tui.shortcuts.input") {
        "Enter model code…  Enter:Confirm  Esc:Cancel  Backspace:Delete"
    } else if str_eq(key, "tui.shortcuts.scroll") {
        "Scroll"
    } else if str_eq(key, "tui.shortcuts.confirm") {
        "Press y to confirm  ·  Press n / Esc to cancel"
    } else if str_eq(key, "tui.shortcuts.input.confirm") {
        "Enter Confirm · Esc Cancel"
    } else if str_eq(key, "tui.shortcuts.model.hint") {
        "m—Cycle Preset  c—Custom"
    } else if str_eq(key, "tui.shortcuts.refresh") {
        "R — Refresh"
    } else if str_eq(key, "tui.model.custom") {
        "(Custom)"
    } else if str_eq(key, "tui.model.preset") {
        "Model"
    } else if str_eq(key, "tui.log.start") {
        "▶ Start: {label}"
    } else if str_eq(key, "tui.log.done") {
        "✓ Done: {label}"
    } else if str_eq(key, "tui.log.failed") {
        "{label} failed: {error}"
    } else if str_eq(key, "tui.log.cancelled") {
        "Operation cancelled"
    } else if str_eq(key, "tui.log.error") {
        "❌ Error: {error}"
    } else if str_eq(key, "tui.install.hint.focused") {
        "Press Enter — view install guide (use install subcommand in CLI)"
    } else if str_eq(key, "tui.install.hint.unfocused") {
        "Switch to this panel and press Enter to view install guide"
    } else if str_eq(key, "tui.install.hint.cmd1") {
        "   or: MiPCM_CLI install --installer <path>"
    } else if str_eq(key, "tui.install.hint.cmd2") {
        "   or: MiPCM_CLI install --url <url>"
    } else if str_eq(key, "tui.uninstall.key.hint") {
        "  Enter — Run  "
    } else if str_eq(key, "tui.input.device") {
        "Device Spoof"
    } else if str_eq(key, "tui.input.smbios") {
        "SMBIOS Spoof"
    } else if str_eq(key, "tui.input.title") {
        " Custom Model — {target_label} "
    } else if str_eq(key, "tui.status.loading") {
        "(Loading…)"
    } else if str_eq(key, "tui.confirm.title") {
        " ⚠ Confirm Uninstall "
    } else if str_eq(key, "tui.log.model.set") {
        "📱 Custom device model set: {model}"
    } else if str_eq(key, "tui.log.smbios.set") {
        "📱 Custom SMBIOS model set: {model}"
    } else if str_eq(key, "tui.log.model.switch") {
        "📱 Device model switched to: {code} [{name}]"
    } else if str_eq(key, "tui.log.smbios.switch") {
        "📱 SMBIOS model switched to: {code} [{name}]"
    } else if str_eq(key, "tui.op.locale.apply") {
        "Locale Spoof · Apply"
    } else if str_eq(key, "tui.op.locale.revert") {
        "Locale Spoof · Revert"
    } else if str_eq(key, "tui.op.camera.apply") {
        "Camera Toast · Apply"
    } else if str_eq(key, "tui.op.camera.revert") {
        "Camera Toast · Revert"
    } else if str_eq(key, "tui.op.audio.wifi") {
        "Audio Stream · WiFi"
    } else if str_eq(key, "tui.op.audio.lan") {
        "Audio Stream · LAN"
    } else if str_eq(key, "tui.op.audio.revert") {
        "Audio Stream · Revert"
    } else if str_eq(key, "tui.op.device.apply") {
        "Device Spoof · Apply({model})"
    } else if str_eq(key, "tui.op.device.revert") {
        "Device Spoof · Revert"
    } else if str_eq(key, "tui.op.smbios.apply") {
        "SMBIOS · Apply({model})"
    } else if str_eq(key, "tui.op.smbios.revert") {
        "SMBIOS · Revert"
    } else if str_eq(key, "tui.op.uninstall.msix") {
        "Uninstall MiDrop Ext (MSIX)"
    } else if str_eq(key, "tui.op.uninstall.product") {
        "Uninstall MiPCManager / MiContinuity"
    } else if str_eq(key, "uninstall.start.manager") {
        "Starting uninstall of MiPCManager: {root}"
    } else if str_eq(key, "uninstall.start.continuity") {
        "Starting uninstall of MiContinuity / PcContinuity: {root}"
    } else if str_eq(key, "uninstall.running.uninstaller") {
        "  Running uninstaller: {exe}"
    } else if str_eq(key, "uninstall.remover.not.removed") {
        "  ⚠ Uninstaller did not delete itself, uninstall may be incomplete: {exe}"
    } else if str_eq(key, "uninstall.main.done") {
        "  ✓ Main program uninstall complete"
    } else if str_eq(key, "uninstall.removing.services") {
        "  Removing services…"
    } else if str_eq(key, "uninstall.service.removed") {
        "    ✓ Service removed: {name}"
    } else if str_eq(key, "uninstall.service.failed") {
        "    ⚠ Failed to remove service {name}: {error}"
    } else if str_eq(key, "uninstall.cleaning.files") {
        "  Cleaning files…"
    } else if str_eq(key, "uninstall.done.manager") {
        "✓ MiPCManager uninstall complete"
    } else if str_eq(key, "uninstall.done.continuity") {
        "✓ MiContinuity / PcContinuity uninstall complete"
    } else if str_eq(key, "uninstall.sub.not.installed") {
        "  - {label} not installed, skipped"
    } else if str_eq(key, "uninstall.sub.uninstalling") {
        "  Uninstalling {label}: {exe}"
    } else if str_eq(key, "uninstall.sub.done") {
        "    ✓ {label} uninstall complete"
    } else if str_eq(key, "uninstall.sub.not.removed") {
        "    ⚠ {label} uninstaller did not delete itself, uninstall may be incomplete"
    } else if str_eq(key, "uninstall.sub.failed") {
        "    ⚠ {label} uninstall failed: {error}"
    } else if str_eq(key, "uninstall.sub.no.uninstaller") {
        "    ⚠ {label} directory exists but uninstall.exe not found"
    } else if str_eq(key, "uninstall.sub.no.version") {
        "    ⚠ {label} directory exists but no version subdirectory"
    } else if str_eq(key, "uninstall.clean.programdata") {
        "    ✓ Removed C:\\ProgramData\\MI"
    } else if str_eq(key, "uninstall.clean.programdata.failed") {
        "    ⚠ Failed to clean C:\\ProgramData\\MI: {error}"
    } else if str_eq(key, "uninstall.clean.dir") {
        "    ✓ Removed {path}"
    } else if str_eq(key, "uninstall.clean.dir.failed") {
        "    ⚠ Failed to clean {path}: {error}"
    } else if str_eq(key, "uninstall.desc.manager") {
        "Will uninstall MiPCManager\n\nInstall dir: {root}\nIncludes: main app, AIService, MiService\nWill remove all services and temp files\n\nThis is irreversible!"
    } else if str_eq(key, "uninstall.desc.continuity") {
        "Will uninstall MiContinuity / PcContinuity\n\nInstall dir: {root}\nWill remove all services and temp files\n\nThis is irreversible!"
    } else if str_eq(key, "uninstall.desc.coexistence") {
        "Both MiPCManager and MiContinuity detected.\nCurrently does not support co-installation. Please uninstall one first."
    } else if str_eq(key, "uninstall.desc.none") {
        "No installed MiPCManager or MiContinuity detected"
    } else if str_eq(key, "uninstall.no.msix") {
        "MiDrop Ext MSIX package not detected"
    } else if str_eq(key, "uninstall.msix.done") {
        "✓ Uninstalled MiDrop Ext MSIX: {pkg}"
    } else if str_eq(key, "uninstall.explorer.restarted") {
        "✓ Explorer restarted"
    } else if str_eq(key, "ops.restart.hint") {
        "Hint: Patches applied. Please restart MiPCManager manually for changes to take effect."
    } else {
        key
    }
}

/// The text of `key` in `lang`; a key without translation is returned as it is.
pub fn tr<'a>(key: &'a str, lang: Lang) -> (r: &'a str)
    ensures
        r@ == spec_tr(key@, lang),
{
    match lang {
        Lang::Zh => tr_zh(key),
        Lang::En => tr_en(key),
    }
}

/// The interface language for a Windows UI language id: Chinese for the
/// Chinese locales (zh-CN, zh-TW, zh-HK, zh-SG and any other id whose primary
/// language is Chinese), English otherwise.
pub fn lang_from_ui_language(lang_id: u16) -> (r: Lang)
    ensures
        r == (if lang_id == 0x0804 || lang_id == 0x0404 || lang_id == 0x0c04 || lang_id == 0x1004
            || lang_id % 1024 == 4 { Lang::Zh } else { Lang::En }),
{
    if lang_id == 0x0804 || lang_id == 0x0404 || lang_id == 0x0c04 || lang_id == 0x1004 {
        return Lang::Zh;
    }
    if lang_id % 1024 == 4 {
        return Lang::Zh;
    }
    Lang::En
}

/// The interface language for the `LANG` environment value: Chinese when it
/// starts with `zh` in any case (only `Z` and `H` lower to `z` and `h`, so
/// ASCII case folding decides as full lower-casing would), English otherwise.
pub fn lang_from_env(value: &str) -> (r: Lang)
    ensures
        r == (if value@.len() >= 2 && crate::infra::text::lower_char(value@[0]) == 'z'
            && crate::infra::text::lower_char(value@[1]) == 'h' { Lang::Zh } else { Lang::En }),
{
    let cs = crate::infra::text::chars_of(value);
    if cs.len() >= 2 && crate::infra::text::to_lower_char(cs[0]) == 'z' && crate::infra::text::to_lower_char(cs[1]) == 'h' {
        Lang::Zh
    } else {
        Lang::En
    }
}

} // verus!
