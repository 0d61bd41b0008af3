//! The interactive menu: its state and what each key does to it.
//!
//! The terminal front end draws the state, turns key presses into
//! [`MenuKey`]s and performs the [`MenuAction`] that a step returns; every
//! decision about focus, selection, model choice, text input and the log view
//! is made here.

use vstd::prelude::*;
use vstd::string::StringExecFns;
use crate::device_spoof::presets;
use crate::infra::text::{char_string, concat2};
use crate::install::strings_view;

verus! {

/// A key press, as the menu distinguishes them.
#[derive(Debug, Clone, Copy, PartialEq, Eq, Structural)]
pub enum MenuKey {
    Up,
    Down,
    Left,
    Right,
    Enter,
    Esc,
    Tab,
    Backspace,
    PageUp,
    PageDown,
    Home,
    End,
    Char(char),
    Other,
}

/// The panel that has the focus.
#[derive(Debug, Clone, Copy, PartialEq, Eq, Structural)]
pub enum Panel {
    Patches,
    Install,
    Log,
}

/// A row of the patch panel.
#[derive(Debug, Clone, Copy, PartialEq, Eq, Structural)]
pub enum PatchRow {
    Locale,
    Camera,
    Audio,
    Device,
    Smbios,
}

/// An operation the menu asks the front end to run.
#[derive(Debug, Clone, Copy, PartialEq, Eq, Structural)]
pub enum MenuOp {
    LocaleApply,
    LocaleRevert,
    CameraApply,
    CameraRevert,
    AudioWifi,
    AudioLan,
    AudioRevert,
    /// Apply the device spoof with the current device model.
    DeviceApply,
    DeviceRevert,
    /// Apply the SMBIOS patch with the current SMBIOS model.
    SmbiosApply,
    SmbiosRevert,
}

/// What the front end does after a key.
#[derive(Debug, Clone, Copy, PartialEq, Eq, Structural)]
pub enum MenuAction {
    /// Nothing beyond drawing the new state.
    Redraw,
    /// Leave the menu.
    Quit,
    /// Read the installation status again.
    Refresh,
    /// Run an operation (the state now marks it as running).
    Run(MenuOp),
}

/// The custom model being typed for the device or SMBIOS row.
pub struct InputState {
    pub target: PatchRow,
    pub buffer: Vec<char>,
}

/// The menu's state.
pub struct MenuState {
    panel: Panel,
    selected_patch: usize,
    selected_button: usize,
    device_model_idx: usize,
    smbios_model_idx: usize,
    custom_device_model: Option<String>,
    custom_smbios_model: Option<String>,
    input: Option<InputState>,
    log: Vec<String>,
    log_scroll: usize,
    op_running: bool,
}

/// The text input as values.
pub struct InputView {
    pub target: PatchRow,
    pub buffer: Seq<char>,
}

/// The menu state as values.
pub struct MenuView {
    pub panel: Panel,
    pub selected_patch: int,
    pub selected_button: int,
    pub device_model_idx: int,
    pub smbios_model_idx: int,
    pub custom_device_model: Option<Seq<char>>,
    pub custom_smbios_model: Option<Seq<char>>,
    pub input: Option<InputView>,
    pub log: Seq<Seq<char>>,
    pub log_scroll: int,
    pub op_running: bool,
}

pub open spec fn opt_view(o: Option<String>) -> Option<Seq<char>> {
    match o {
        Some(s) => Some(s@),
        None => None,
    }
}

impl MenuState {
    /// The state as values.
    pub closed spec fn view(&self) -> MenuView {
        MenuView {
            panel: self.panel,
            selected_patch: self.selected_patch as int,
            selected_button: self.selected_button as int,
            device_model_idx: self.device_model_idx as int,
            smbios_model_idx: self.smbios_model_idx as int,
            custom_device_model: opt_view(self.custom_device_model),
            custom_smbios_model: opt_view(self.custom_smbios_model),
            input: match self.input {
                Some(i) => Some(InputView { target: i.target, buffer: i.buffer@ }),
                None => None,
            },
            log: strings_view(self.log@),
            log_scroll: self.log_scroll as int,
            op_running: self.op_running,
        }
    }
}

/// The patch rows from top to bottom.
pub open spec fn row_at(i: int) -> PatchRow {
    if i == 0 {
        PatchRow::Locale
    } else if i == 1 {
        PatchRow::Camera
    } else if i == 2 {
        PatchRow::Audio
    } else if i == 3 {
        PatchRow::Device
    } else {
        PatchRow::Smbios
    }
}

/// The number of buttons of a row: Wi-Fi, LAN and revert for audio; apply and
/// revert for the others.
pub open spec fn button_count(row: PatchRow) -> int {
    if row == PatchRow::Audio { 3 } else { 2 }
}

/// A state the menu can be in: a row and a button of it are selected, the
/// model indices name an offered preset and the log view is inside the log.
pub open spec fn menu_wf(v: MenuView) -> bool {
    &&& 0 <= v.selected_patch < 5
    &&& 0 <= v.selected_button < button_count(row_at(v.selected_patch))
    &&& 0 <= v.device_model_idx < 2
    &&& 0 <= v.smbios_model_idx < 2
    &&& 0 <= v.log_scroll
    &&& (v.log_scroll == 0 || v.log_scroll < v.log.len())
}

/// The last line of a log of `n` lines (0 for none).
pub open spec fn last_line(n: int) -> int {
    if n > 0 { n - 1 } else { 0 }
}

/// `line` appended to the log, which is scrolled to its end.
pub open spec fn with_log_line(v: MenuView, line: Seq<char>) -> MenuView {
    MenuView { log: v.log.push(line), log_scroll: v.log.len() as int, ..v }
}

/// The operation of a row's button.
pub open spec fn button_op(row: PatchRow, button: int) -> Option<MenuOp> {
    match row {
        PatchRow::Locale => if button == 0 { Some(MenuOp::LocaleApply) } else { Some(MenuOp::LocaleRevert) },
        PatchRow::Camera => if button == 0 { Some(MenuOp::CameraApply) } else { Some(MenuOp::CameraRevert) },
        PatchRow::Audio => if button == 0 {
            Some(MenuOp::AudioWifi)
        } else if button == 1 {
            Some(MenuOp::AudioLan)
        } else {
            Some(MenuOp::AudioRevert)
        },
        PatchRow::Device => if button == 0 { Some(MenuOp::DeviceApply) } else { Some(MenuOp::DeviceRevert) },
        PatchRow::Smbios => if button == 0 { Some(MenuOp::SmbiosApply) } else { Some(MenuOp::SmbiosRevert) },
    }
}

/// Preset code and name by index.
pub open spec fn preset_code(i: int) -> Seq<char> {
    if i == 0 { "TM2424"@ } else { "TM2309"@ }
}

pub open spec fn preset_name(i: int) -> Seq<char> {
    if i == 0 { "Xiaomi Book Pro 14 (2026)"@ } else { "Redmi Book 16 (2024)"@ }
}

/// The line logged when the device or SMBIOS preset changes to `i`.
pub open spec fn preset_line(device: bool, i: int) -> Seq<char> {
    (if device { "📱 设备伪装机型切换为："@ } else { "📱 SMBIOS 机型切换为："@ }) + preset_code(i) + " ["@ + preset_name(i) + "]"@
}

/// The line logged when a custom model is set.
pub open spec fn custom_line(device: bool, model: Seq<char>) -> Seq<char> {
    (if device { "📱 自定义设备机型已设置："@ } else { "📱 自定义 SMBIOS 机型已设置："@ }) + model
}

/// The hint logged for the install panel.
pub open spec fn install_hint() -> Seq<Seq<char>> {
    seq![
        "💡 安装请使用命令行：MiPCM_CLI install"@,
        "   或：MiPCM_CLI install --installer <路径>"@,
        "   或：MiPCM_CLI install --url <下载地址>"@,
    ]
}

/// A key while a custom model is typed.
pub open spec fn spec_input_step(v: MenuView, i: InputView, key: MenuKey) -> MenuView {
    match key {
        MenuKey::Esc => MenuView { input: None, ..v },
        MenuKey::Enter => {
            let model = crate::device_spoof::spec_trim(i.buffer);
            let closed = MenuView { input: None, ..v };
            if model.len() == 0 {
                closed
            } else if i.target == PatchRow::Device {
                with_log_line(MenuView { custom_device_model: Some(model), ..closed }, custom_line(true, model))
            } else if i.target == PatchRow::Smbios {
                with_log_line(MenuView { custom_smbios_model: Some(model), ..closed }, custom_line(false, model))
            } else {
                closed
            }
        },
        MenuKey::Backspace => MenuView {
            input: Some(InputView { buffer: if i.buffer.len() > 0 { i.buffer.drop_last() } else { i.buffer }, ..i }),
            ..v
        },
        MenuKey::Char(c) => MenuView { input: Some(InputView { buffer: i.buffer.push(c), ..i }), ..v },
        _ => v,
    }
}

/// A key on the patch panel.
pub open spec fn spec_patches_step(v: MenuView, key: MenuKey) -> (MenuView, MenuAction) {
    let row = row_at(v.selected_patch);
    match key {
        MenuKey::Up => if v.selected_patch > 0 {
            (MenuView { selected_patch: v.selected_patch - 1, selected_button: 0, ..v }, MenuAction::Redraw)
        } else {
            (v, MenuAction::Redraw)
        },
        MenuKey::Down => if v.selected_patch < 4 {
            (MenuView { selected_patch: v.selected_patch + 1, selected_button: 0, ..v }, MenuAction::Redraw)
        } else {
            (v, MenuAction::Redraw)
        },
        MenuKey::Left => if v.selected_button > 0 {
            (MenuView { selected_button: v.selected_button - 1, ..v }, MenuAction::Redraw)
        } else {
            (v, MenuAction::Redraw)
        },
        MenuKey::Right => if v.selected_button < button_count(row) - 1 {
            (MenuView { selected_button: v.selected_button + 1, ..v }, MenuAction::Redraw)
        } else {
            (v, MenuAction::Redraw)
        },
        MenuKey::Enter => match button_op(row, v.selected_button) {
            Some(op) => (MenuView { op_running: true, ..v }, MenuAction::Run(op)),
            None => (v, MenuAction::Redraw),
        },
        MenuKey::Char(c) => if c == 'm' || c == 'M' {
            if row == PatchRow::Device {
                let k = (v.device_model_idx + 1) % 2;
                (with_log_line(MenuView { custom_device_model: None, device_model_idx: k, ..v }, preset_line(true, k)), MenuAction::Redraw)
            } else if row == PatchRow::Smbios {
                let k = (v.smbios_model_idx + 1) % 2;
                (with_log_line(MenuView { custom_smbios_model: None, smbios_model_idx: k, ..v }, preset_line(false, k)), MenuAction::Redraw)
            } else {
                (v, MenuAction::Redraw)
            }
        } else if (c == 'c' || c == 'C') && (row == PatchRow::Device || row == PatchRow::Smbios) {
            (MenuView { input: Some(InputView { target: row, buffer: Seq::empty() }), ..v }, MenuAction::Redraw)
        } else {
            (v, MenuAction::Redraw)
        },
        _ => (v, MenuAction::Redraw),
    }
}

/// A key on the log panel: scrolling.
pub open spec fn spec_log_step(v: MenuView, key: MenuKey) -> MenuView {
    let n = v.log.len() as int;
    let s = v.log_scroll;
    let up = key == MenuKey::Up || key == MenuKey::Char('k');
    let down = key == MenuKey::Down || key == MenuKey::Char('j');
    let to = if up {
        if s > 0 { s - 1 } else { 0 }
    } else if down {
        if s + 1 < n { s + 1 } else { s }
    } else if key == MenuKey::PageUp {
        if s > 10 { s - 10 } else { 0 }
    } else if key == MenuKey::PageDown {
        if s + 10 < last_line(n) { s + 10 } else { last_line(n) }
    } else if key == MenuKey::Home {
        0
    } else if key == MenuKey::End {
        last_line(n)
    } else {
        s
    };
    MenuView { log_scroll: to, ..v }
}

/// What a key does: typing goes to the open input; `q`, `Q` and Esc quit,
/// Tab moves the focus, `R` asks for a refresh; while an operation runs the
/// panels take no keys; else the focused panel handles the key.
pub open spec fn spec_menu_step(v: MenuView, key: MenuKey) -> (MenuView, MenuAction) {
    match v.input {
        Some(i) => (spec_input_step(v, i, key), MenuAction::Redraw),
        None => if key == MenuKey::Char('q') || key == MenuKey::Char('Q') || key == MenuKey::Esc {
            (v, MenuAction::Quit)
        } else if key == MenuKey::Tab {
            let p = match v.panel {
                Panel::Patches => Panel::Install,
                Panel::Install => Panel::Log,
                Panel::Log => Panel::Patches,
            };
            (MenuView { panel: p, selected_button: 0, ..v }, MenuAction::Redraw)
        } else if key == MenuKey::Char('R') {
            (v, MenuAction::Refresh)
        } else if v.op_running {
            (v, MenuAction::Redraw)
        } else {
            match v.panel {
                Panel::Patches => spec_patches_step(v, key),
                Panel::Install => if key == MenuKey::Enter {
                    (MenuView { log: v.log + install_hint(), log_scroll: v.log.len() as int + 2, ..v }, MenuAction::Redraw)
                } else {
                    (v, MenuAction::Redraw)
                },
                Panel::Log => (spec_log_step(v, key), MenuAction::Redraw),
            }
        },
    }
}

fn push_line(log: &mut Vec<String>, line: String)
    ensures
        strings_view(final(log)@) == strings_view(old(log)@).push(line@),
        final(log)@.len() == old(log)@.len() + 1,
{
    let ghost before = log@;
    log.push(line);
    assert(strings_view(log@) =~= strings_view(before).push(line@));
}

fn string_of(v: &Vec<char>) -> (r: String)
    ensures
        r@ == v@,
{
    let mut s = String::new();
    let mut i: usize = 0;
    while i < v.len()
        invariant
            i <= v.len(),
            s@ == v@.subrange(0, i as int),
        decreases v.len() - i,
    {
        let one = char_string(v[i]);
        s.append(one.as_str());
        i = i + 1;
        assert(s@ =~= v@.subrange(0, i as int));
    }
    assert(v@.subrange(0, v.len() as int) =~= v@);
    s
}

fn preset_message(device: bool, i: usize) -> (r: String)
    requires
        i < 2,
    ensures
        r@ == preset_line(device, i as int),
{
    let ps = presets();
    let p = &ps[i];
    let mut s = if device { String::from_str("📱 设备伪装机型切换为：") } else { String::from_str("📱 SMBIOS 机型切换为：") };
    s.append(p.code);
    s.append(" [");
    s.append(p.name);
    s.append("]");
    proof {
        reveal_strlit("TM2424");
        reveal_strlit("TM2309");
    }
    s
}

fn button_op_of(row_index: usize, button: usize) -> (r: Option<MenuOp>)
    requires
        row_index < 5,
    ensures
        r == button_op(row_at(row_index as int), button as int),
{
    if row_index == 0 {
        if button == 0 { Some(MenuOp::LocaleApply) } else { Some(MenuOp::LocaleRevert) }
    } else if row_index == 1 {
        if button == 0 { Some(MenuOp::CameraApply) } else { Some(MenuOp::CameraRevert) }
    } else if row_index == 2 {
        if button == 0 {
            Some(MenuOp::AudioWifi)
        } else if button == 1 {
            Some(MenuOp::AudioLan)
        } else {
            Some(MenuOp::AudioRevert)
        }
    } else if row_index == 3 {
        if button == 0 { Some(MenuOp::DeviceApply) } else { Some(MenuOp::DeviceRevert) }
    } else {
        if button == 0 { Some(MenuOp::SmbiosApply) } else { Some(MenuOp::SmbiosRevert) }
    }
}

fn row_of(i: usize) -> (r: PatchRow)
    ensures
        r == row_at(i as int),
{
    if i == 0 {
        PatchRow::Locale
    } else if i == 1 {
        PatchRow::Camera
    } else if i == 2 {
        PatchRow::Audio
    } else if i == 3 {
        PatchRow::Device
    } else {
        PatchRow::Smbios
    }
}

impl MenuState {
    /// The menu as it opens: patch panel, first row and button, the first
    /// presets, no custom models, an empty log.
    pub fn new() -> (r: MenuState)
        ensures
            r.view() == (MenuView {
                panel: Panel::Patches,
                selected_patch: 0,
                selected_button: 0,
                device_model_idx: 0,
                smbios_model_idx: 0,
                custom_device_model: None,
                custom_smbios_model: None,
                input: None,
                log: Seq::empty(),
                log_scroll: 0,
                op_running: false,
            }),
            menu_wf(r.view()),
    {
        let r = MenuState {
            panel: Panel::Patches,
            selected_patch: 0,
            selected_button: 0,
            device_model_idx: 0,
            smbios_model_idx: 0,
            custom_device_model: None,
            custom_smbios_model: None,
            input: None,
            log: Vec::new(),
            log_scroll: 0,
            op_running: false,
        };
        assert(strings_view(r.log@) =~= Seq::empty());
        r
    }

    /// The focused panel.
    pub fn panel(&self) -> (r: Panel)
        ensures
            r == self.view().panel,
    {
        self.panel
    }

    /// The selected patch row (0 to 4).
    pub fn selected_patch(&self) -> (r: usize)
        ensures
            r == self.view().selected_patch,
    {
        self.selected_patch
    }

    /// The selected button of the row.
    pub fn selected_button(&self) -> (r: usize)
        ensures
            r == self.view().selected_button,
    {
        self.selected_button
    }

    /// The log lines.
    pub fn log(&self) -> (r: &Vec<String>)
        ensures
            strings_view(r@) == self.view().log,
    {
        &self.log
    }

    /// The first log line in view.
    pub fn log_scroll(&self) -> (r: usize)
        ensures
            r == self.view().log_scroll,
    {
        self.log_scroll
    }

    /// An operation is running.
    pub fn op_running(&self) -> (r: bool)
        ensures
            r == self.view().op_running,
    {
        self.op_running
    }

    /// The text being typed and the row it is for, if any.
    pub fn input(&self) -> (r: Option<(PatchRow, &Vec<char>)>)
        ensures
            match self.view().input {
                Some(i) => r matches Some((t, b)) && t == i.target && b@ == i.buffer,
                None => r is None,
            },
    {
        match &self.input {
            Some(i) => Some((i.target, &i.buffer)),
            None => None,
        }
    }

    /// The device model in use: the custom one, else the selected preset.
    pub fn current_device_model(&self) -> (r: String)
        requires
            menu_wf(self.view()),
        ensures
            r@ == match self.view().custom_device_model {
                Some(m) => m,
                None => preset_code(self.view().device_model_idx),
            },
    {
        match &self.custom_device_model {
            Some(m) => m.clone(),
            None => {
                let ps = presets();
                proof {
                    reveal_strlit("TM2424");
                    reveal_strlit("TM2309");
                }
                String::from_str(ps[self.device_model_idx].code)
            },
        }
    }

    /// The SMBIOS model in use: the custom one, else the selected preset.
    pub fn current_smbios_model(&self) -> (r: String)
        requires
            menu_wf(self.view()),
        ensures
            r@ == match self.view().custom_smbios_model {
                Some(m) => m,
                None => preset_code(self.view().smbios_model_idx),
            },
    {
        match &self.custom_smbios_model {
            Some(m) => m.clone(),
            None => {
                let ps = presets();
                proof {
                    reveal_strlit("TM2424");
                    reveal_strlit("TM2309");
                }
                String::from_str(ps[self.smbios_model_idx].code)
            },
        }
    }

    /// Appends `line` to the log and scrolls to it.
    pub fn log_line(self, line: String) -> (r: MenuState)
        requires
            menu_wf(self.view()),
        ensures
            r.view() == with_log_line(self.view(), line@),
            menu_wf(r.view()),
    {
        let mut s = self;
        let n = s.log.len();
        push_line(&mut s.log, line);
        s.log_scroll = n;
        s
    }

    /// The running operation ended.
    pub fn op_finished(self) -> (r: MenuState)
        requires
            menu_wf(self.view()),
        ensures
            r.view() == (MenuView { op_running: false, ..self.view() }),
            menu_wf(r.view()),
    {
        let mut s = self;
        s.op_running = false;
        s
    }

    /// The running operation failed with `message`: the error is logged.
    pub fn op_failed(self, message: &str) -> (r: MenuState)
        requires
            menu_wf(self.view()),
        ensures
            r.view() == with_log_line(MenuView { op_running: false, ..self.view() }, "❌ 错误："@ + message@),
            menu_wf(r.view()),
    {
        let mut s = self;
        s.op_running = false;
        let line = concat2("❌ 错误：", message);
        s.log_line(line)
    }
}

/// The label of an operation in the log; `model` is the model in use for
/// the device and SMBIOS patches.
pub open spec fn spec_op_label(op: MenuOp, model: Seq<char>) -> Seq<char> {
    match op {
        MenuOp::LocaleApply => "地区伪装 · 应用"@,
        MenuOp::LocaleRevert => "地区伪装 · 还原"@,
        MenuOp::CameraApply => "摄像头弹窗抑制 · 应用"@,
        MenuOp::CameraRevert => "摄像头弹窗抑制 · 还原"@,
        MenuOp::AudioWifi => "音频流转 · WiFi"@,
        MenuOp::AudioLan => "音频流转 · LAN"@,
        MenuOp::AudioRevert => "音频流转 · 还原"@,
        MenuOp::DeviceApply => "设备伪装 · 应用("@ + model + ")"@,
        MenuOp::DeviceRevert => "设备伪装 · 还原"@,
        MenuOp::SmbiosApply => "SMBIOS · 应用("@ + model + ")"@,
        MenuOp::SmbiosRevert => "SMBIOS · 还原"@,
    }
}

/// The label of an operation in the log.
pub fn op_label(op: MenuOp, model: &str) -> (r: String)
    ensures
        r@ == spec_op_label(op, model@),
{
    match op {
        MenuOp::LocaleApply => String::from_str("地区伪装 · 应用"),
        MenuOp::LocaleRevert => String::from_str("地区伪装 · 还原"),
        MenuOp::CameraApply => String::from_str("摄像头弹窗抑制 · 应用"),
        MenuOp::CameraRevert => String::from_str("摄像头弹窗抑制 · 还原"),
        MenuOp::AudioWifi => String::from_str("音频流转 · WiFi"),
        MenuOp::AudioLan => String::from_str("音频流转 · LAN"),
        MenuOp::AudioRevert => String::from_str("音频流转 · 还原"),
        MenuOp::DeviceApply => {
            let mut s = concat2("设备伪装 · 应用(", model);
            s.append(")");
            s
        },
        MenuOp::DeviceRevert => String::from_str("设备伪装 · 还原"),
        MenuOp::SmbiosApply => {
            let mut s = concat2("SMBIOS · 应用(", model);
            s.append(")");
            s
        },
        MenuOp::SmbiosRevert => String::from_str("SMBIOS · 还原"),
    }
}

/// One key press: the next state and what the front end does.
pub fn menu_step(s: MenuState, key: MenuKey) -> (r: (MenuState, MenuAction))
    requires
        menu_wf(s.view()),
    ensures
        (r.0.view(), r.1) == spec_menu_step(s.view(), key),
        menu_wf(r.0.view()),
{
    let ghost v = s.view();
    let MenuState {
        panel,
        selected_patch,
        selected_button,
        device_model_idx,
        smbios_model_idx,
        custom_device_model,
        custom_smbios_model,
        input,
        log,
        log_scroll,
        op_running,
    } = s;
    let mut st = MenuState {
        panel,
        selected_patch,
        selected_button,
        device_model_idx,
        smbios_model_idx,
        custom_device_model,
        custom_smbios_model,
        input: None,
        log,
        log_scroll,
        op_running,
    };
    match input {
        Some(inp) => {
            let r = input_step(st, inp, key);
            return (r, MenuAction::Redraw);
        },
        None => {},
    }
    assert(st.view() == v);
    match key {
        MenuKey::Char('q') | MenuKey::Char('Q') | MenuKey::Esc => return (st, MenuAction::Quit),
        MenuKey::Tab => {
            st.panel = match st.panel {
                Panel::Patches => Panel::Install,
                Panel::Install => Panel::Log,
                Panel::Log => Panel::Patches,
            };
            st.selected_button = 0;
            return (st, MenuAction::Redraw);
        },
        MenuKey::Char('R') => return (st, MenuAction::Refresh),
        _ => {},
    }
    if st.op_running {
        return (st, MenuAction::Redraw);
    }
    match st.panel {
        Panel::Patches => patches_step(st, key),
        Panel::Install => {
            if key == MenuKey::Enter {
                push_line(&mut st.log, String::from_str("💡 安装请使用命令行：MiPCM_CLI install"));
                push_line(&mut st.log, String::from_str("   或：MiPCM_CLI install --installer <路径>"));
                push_line(&mut st.log, String::from_str("   或：MiPCM_CLI install --url <下载地址>"));
                st.log_scroll = st.log.len() - 1;
                assert(st.view().log =~= v.log + install_hint());
            }
            (st, MenuAction::Redraw)
        },
        Panel::Log => {
            let r = log_step(st, key);
            (r, MenuAction::Redraw)
        },
    }
}

fn input_step(st: MenuState, inp: InputState, key: MenuKey) -> (r: MenuState)
    requires
        menu_wf(st.view()),
        st.view().input is None,
    ensures
        ({
            let iv = InputView { target: inp.target, buffer: inp.buffer@ };
            let v = MenuView { input: Some(iv), ..st.view() };
            r.view() == spec_input_step(v, iv, key)
        }),
        menu_wf(r.view()),
{
    let mut st = st;
    let InputState { target, buffer } = inp;
    let mut buffer = buffer;
    assert(st.view().input is None);
    match key {
        MenuKey::Esc => {
            assert(st.view() == (MenuView { input: None, ..MenuView { input: Some(InputView { target: target, buffer: buffer@ }), ..st.view() } }));
            st
        },
        MenuKey::Enter => {
            let text = string_of(&buffer);
            let model = crate::device_spoof::trim(text.as_str());
            if crate::infra::text::chars_of(model).len() == 0 {
                st
            } else {
                match target {
                    PatchRow::Device => {
                        st.custom_device_model = Some(String::from_str(model));
                        let line = concat2("📱 自定义设备机型已设置：", model);
                        st.log_line(line)
                    },
                    PatchRow::Smbios => {
                        st.custom_smbios_model = Some(String::from_str(model));
                        let line = concat2("📱 自定义 SMBIOS 机型已设置：", model);
                        st.log_line(line)
                    },
                    _ => st,
                }
            }
        },
        MenuKey::Backspace => {
            if buffer.len() > 0 {
                buffer.pop();
            }
            st.input = Some(InputState { target, buffer });
            st
        },
        MenuKey::Char(c) => {
            buffer.push(c);
            st.input = Some(InputState { target, buffer });
            st
        },
        _ => {
            st.input = Some(InputState { target, buffer });
            st
        },
    }
}

fn patches_step(st: MenuState, key: MenuKey) -> (r: (MenuState, MenuAction))
    requires
        menu_wf(st.view()),
        st.view().input is None,
    ensures
        (r.0.view(), r.1) == spec_patches_step(st.view(), key),
        menu_wf(r.0.view()),
{
    let mut st = st;
    let row = row_of(st.selected_patch);
    match key {
        MenuKey::Up => {
            if st.selected_patch > 0 {
                st.selected_patch = st.selected_patch - 1;
                st.selected_button = 0;
            }
            (st, MenuAction::Redraw)
        },
        MenuKey::Down => {
            if st.selected_patch < 4 {
                st.selected_patch = st.selected_patch + 1;
                st.selected_button = 0;
            }
            (st, MenuAction::Redraw)
        },
        MenuKey::Left => {
            if st.selected_button > 0 {
                st.selected_button = st.selected_button - 1;
            }
            (st, MenuAction::Redraw)
        },
        MenuKey::Right => {
            let count: usize = if row == PatchRow::Audio { 3 } else { 2 };
            if st.selected_button < count - 1 {
                st.selected_button = st.selected_button + 1;
            }
            (st, MenuAction::Redraw)
        },
        MenuKey::Enter => match button_op_of(st.selected_patch, st.selected_button) {
            Some(op) => {
                st.op_running = true;
                (st, MenuAction::Run(op))
            },
            None => (st, MenuAction::Redraw),
        },
        MenuKey::Char(c) => {
            if c == 'm' || c == 'M' {
                if row == PatchRow::Device {
                    let k = (st.device_model_idx + 1) % 2;
                    st.custom_device_model = None;
                    st.device_model_idx = k;
                    let line = preset_message(true, k);
                    (st.log_line(line), MenuAction::Redraw)
                } else if row == PatchRow::Smbios {
                    let k = (st.smbios_model_idx + 1) % 2;
                    st.custom_smbios_model = None;
                    st.smbios_model_idx = k;
                    let line = preset_message(false, k);
                    (st.log_line(line), MenuAction::Redraw)
                } else {
                    (st, MenuAction::Redraw)
                }
            } else if (c == 'c' || c == 'C') && (row == PatchRow::Device || row == PatchRow::Smbios) {
                st.input = Some(InputState { target: row, buffer: Vec::new() });
                (st, MenuAction::Redraw)
            } else {
                (st, MenuAction::Redraw)
            }
        },
        _ => (st, MenuAction::Redraw),
    }
}

fn log_step(st: MenuState, key: MenuKey) -> (r: MenuState)
    requires
        menu_wf(st.view()),
    ensures
        r.view() == spec_log_step(st.view(), key),
        menu_wf(r.view()),
{
    let mut st = st;
    let n = st.log.len();
    let s = st.log_scroll;
    let last: usize = if n > 0 { n - 1 } else { 0 };
    let up = key == MenuKey::Up || key == MenuKey::Char('k');
    let down = key == MenuKey::Down || key == MenuKey::Char('j');
    let to: usize = if up {
        if s > 0 { s - 1 } else { 0 }
    } else if down {
        if s + 1 < n { s + 1 } else { s }
    } else if key == MenuKey::PageUp {
        if s > 10 { s - 10 } else { 0 }
    } else if key == MenuKey::PageDown {
        if last >= 10 && s < last - 10 { s + 10 } else { last }
    } else if key == MenuKey::Home {
        0
    } else if key == MenuKey::End {
        last
    } else {
        s
    };
    st.log_scroll = to;
    st
}

} // verus!
