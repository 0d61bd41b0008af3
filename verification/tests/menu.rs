use mipcmanager_patch::menu::{menu_step, op_label, MenuAction, MenuKey, MenuOp, MenuState, Panel, PatchRow};

fn press(s: MenuState, keys: &[MenuKey]) -> (MenuState, MenuAction) {
    let mut s = s;
    let mut last = MenuAction::Redraw;
    for k in keys {
        let (n, a) = menu_step(s, *k);
        s = n;
        last = a;
    }
    (s, last)
}

#[test]
fn the_menu_opens_on_the_first_patch() {
    let s = MenuState::new();
    assert_eq!(s.panel(), Panel::Patches);
    assert_eq!(s.selected_patch(), 0);
    assert_eq!(s.selected_button(), 0);
    assert!(s.log().is_empty());
    assert_eq!(s.current_device_model(), "TM2424");
}

#[test]
fn quit_keys_quit() {
    for k in [MenuKey::Char('q'), MenuKey::Char('Q'), MenuKey::Esc] {
        let (_, a) = menu_step(MenuState::new(), k);
        assert_eq!(a, MenuAction::Quit);
    }
}

#[test]
fn enter_runs_the_selected_button_and_blocks_the_panels() {
    let (s, a) = press(MenuState::new(), &[MenuKey::Down, MenuKey::Down, MenuKey::Right, MenuKey::Right, MenuKey::Right]);
    assert_eq!(a, MenuAction::Redraw);
    assert_eq!(s.selected_patch(), 2);
    assert_eq!(s.selected_button(), 2);
    let (s, a) = menu_step(s, MenuKey::Enter);
    assert_eq!(a, MenuAction::Run(MenuOp::AudioRevert));
    assert!(s.op_running());
    let (s, a) = menu_step(s, MenuKey::Up);
    assert_eq!(a, MenuAction::Redraw);
    assert_eq!(s.selected_patch(), 2);
    let s = s.op_finished();
    let (s, _) = menu_step(s, MenuKey::Up);
    assert_eq!(s.selected_patch(), 1);
    assert_eq!(s.selected_button(), 0);
}

#[test]
fn the_selection_stays_inside_the_rows() {
    let (s, _) = press(MenuState::new(), &[MenuKey::Up, MenuKey::Left]);
    assert_eq!((s.selected_patch(), s.selected_button()), (0, 0));
    let (s, _) = press(s, &[MenuKey::Down; 9]);
    assert_eq!(s.selected_patch(), 4);
    let (s, _) = press(s, &[MenuKey::Right; 5]);
    assert_eq!(s.selected_button(), 1);
}

#[test]
fn m_cycles_the_device_preset() {
    let (s, _) = press(MenuState::new(), &[MenuKey::Down, MenuKey::Down, MenuKey::Down, MenuKey::Char('m')]);
    assert_eq!(s.current_device_model(), "TM2309");
    assert_eq!(s.log().last().unwrap(), "📱 设备伪装机型切换为：TM2309 [Redmi Book 16 (2024)]");
    let (s, _) = menu_step(s, MenuKey::Char('M'));
    assert_eq!(s.current_device_model(), "TM2424");
}

#[test]
fn a_custom_model_is_typed_trimmed_and_kept() {
    let keys = [
        MenuKey::Down,
        MenuKey::Down,
        MenuKey::Down,
        MenuKey::Down,
        MenuKey::Char('c'),
        MenuKey::Char(' '),
        MenuKey::Char('X'),
        MenuKey::Char('Y'),
        MenuKey::Char('Z'),
        MenuKey::Backspace,
        MenuKey::Char(' '),
    ];
    let (s, _) = press(MenuState::new(), &keys);
    match s.input() {
        Some((row, buffer)) => {
            assert_eq!(row, PatchRow::Smbios);
            assert_eq!(buffer.iter().collect::<String>(), " XY ");
        }
        None => panic!("input expected"),
    }
    let (s, a) = menu_step(s, MenuKey::Enter);
    assert_eq!(a, MenuAction::Redraw);
    assert!(s.input().is_none());
    assert_eq!(s.current_smbios_model(), "XY");
    assert_eq!(s.log().last().unwrap(), "📱 自定义 SMBIOS 机型已设置：XY");
    assert_eq!(s.log_scroll(), 0);
}

#[test]
fn an_empty_custom_model_changes_nothing() {
    let (s, _) = press(MenuState::new(), &[MenuKey::Down, MenuKey::Down, MenuKey::Down, MenuKey::Char('c'), MenuKey::Char(' '), MenuKey::Enter]);
    assert!(s.input().is_none());
    assert_eq!(s.current_device_model(), "TM2424");
    assert!(s.log().is_empty());
}

#[test]
fn the_install_panel_logs_the_command_line_hint() {
    let (s, _) = press(MenuState::new(), &[MenuKey::Tab, MenuKey::Enter]);
    assert_eq!(s.panel(), Panel::Install);
    assert_eq!(s.log().len(), 3);
    assert_eq!(s.log()[0], "💡 安装请使用命令行：MiPCM_CLI install");
    assert_eq!(s.log_scroll(), 2);
}

#[test]
fn the_log_panel_scrolls_inside_the_log() {
    let mut s = MenuState::new();
    for i in 0..30 {
        s = s.log_line(format!("line {i}"));
    }
    assert_eq!(s.log_scroll(), 29);
    let (s, _) = press(s, &[MenuKey::Tab, MenuKey::Tab]);
    assert_eq!(s.panel(), Panel::Log);
    let (s, _) = press(s, &[MenuKey::PageUp, MenuKey::PageUp, MenuKey::Char('k')]);
    assert_eq!(s.log_scroll(), 8);
    let (s, _) = menu_step(s, MenuKey::Home);
    assert_eq!(s.log_scroll(), 0);
    let (s, _) = menu_step(s, MenuKey::PageDown);
    assert_eq!(s.log_scroll(), 10);
    let (s, _) = menu_step(s, MenuKey::End);
    assert_eq!(s.log_scroll(), 29);
    let (s, _) = menu_step(s, MenuKey::Char('j'));
    assert_eq!(s.log_scroll(), 29);
}

#[test]
fn a_failed_operation_is_logged() {
    let (s, _) = menu_step(MenuState::new(), MenuKey::Enter);
    assert!(s.op_running());
    let s = s.op_failed("地区伪装 · 应用 失败：x");
    assert!(!s.op_running());
    assert_eq!(s.log().last().unwrap(), "❌ 错误：地区伪装 · 应用 失败：x");
}

#[test]
fn operation_labels() {
    assert_eq!(op_label(MenuOp::DeviceApply, "TM2424"), "设备伪装 · 应用(TM2424)");
    assert_eq!(op_label(MenuOp::AudioWifi, ""), "音频流转 · WiFi");
}
