use mipcmanager_patch::ops::{BroadcastMode, ProcessGroup, RouteAction};
use mipcmanager_patch::patch_run::{
    audio_route_after_patch, fits, patch_run, patch_step, Attempt, CloseHow, CloseMode, PatchCommand, PatchEvent, Phase,
};

#[test]
fn a_required_close_refuses_the_patch_while_processes_run() {
    let mut log = Vec::new();
    let run = patch_run(ProcessGroup::Locale, CloseMode::Required, false);
    let (run, cmd) = patch_step(run, &mut log, PatchEvent::Begin);
    assert!(matches!(cmd, PatchCommand::CloseApps(CloseHow::KillAndWait)));
    let (run, cmd) = patch_step(run, &mut log, PatchEvent::Closed(1, vec!["micont_service".to_string()]));
    assert_eq!(run.phase, Phase::Finished);
    match cmd {
        PatchCommand::Fail(m) => assert_eq!(m, "补丁前必须关闭相关进程，但以下进程仍在运行：micont_service。请手动结束后重试。"),
        _ => panic!("refusal expected"),
    }
    assert_eq!(log, vec!["已关闭 1 个相关进程：micont_service".to_string()]);
}

#[test]
fn no_kill_only_lists_for_a_required_close() {
    let mut log = Vec::new();
    let run = patch_run(ProcessGroup::Smbios, CloseMode::Required, true);
    let (run, cmd) = patch_step(run, &mut log, PatchEvent::Begin);
    assert!(matches!(cmd, PatchCommand::CloseApps(CloseHow::ListOnly)));
    let (run, cmd) = patch_step(run, &mut log, PatchEvent::Closed(0, Vec::new()));
    assert!(matches!(cmd, PatchCommand::Patch));
    assert_eq!(run.phase, Phase::FirstTry);
    assert!(log.is_empty());
}

#[test]
fn access_denied_is_retried_once_after_closing() {
    let mut log = Vec::new();
    let run = patch_run(ProcessGroup::Camera, CloseMode::BestEffort, true);
    let (run, cmd) = patch_step(run, &mut log, PatchEvent::Begin);
    assert!(matches!(cmd, PatchCommand::Patch));
    let (run, cmd) = patch_step(run, &mut log, PatchEvent::Tried(Attempt::AccessDenied("denied".to_string())));
    assert!(matches!(cmd, PatchCommand::CloseApps(CloseHow::KillAndWait)));
    assert!(!fits(run.phase, &PatchEvent::Begin));
    let (run, cmd) = patch_step(run, &mut log, PatchEvent::Closed(1, Vec::new()));
    assert!(matches!(cmd, PatchCommand::Patch));
    assert_eq!(
        log,
        vec![
            "遇到拒绝访问，正在关闭相关进程后重试一次：XiaomiPcManager".to_string(),
            "已关闭 1 个相关进程：XiaomiPcManager".to_string(),
        ]
    );
    let (run, cmd) = patch_step(run, &mut log, PatchEvent::Tried(Attempt::AccessDenied("denied again".to_string())));
    assert_eq!(run.phase, Phase::Finished);
    match cmd {
        PatchCommand::Fail(m) => assert_eq!(m, "denied again"),
        _ => panic!("failure expected"),
    }
}

#[test]
fn other_failures_end_the_operation_at_once() {
    let mut log = Vec::new();
    let run = patch_run(ProcessGroup::Audio, CloseMode::BestEffort, false);
    let (run, cmd) = patch_step(run, &mut log, PatchEvent::Begin);
    assert!(matches!(cmd, PatchCommand::CloseApps(CloseHow::Kill)));
    let (run, _) = patch_step(run, &mut log, PatchEvent::Closed(0, Vec::new()));
    let (run, cmd) = patch_step(run, &mut log, PatchEvent::Tried(Attempt::Failed("bad".to_string())));
    assert_eq!(run.phase, Phase::Finished);
    assert!(matches!(cmd, PatchCommand::Fail(ref m) if m == "bad"));
    let (_, cmd) = patch_step(patch_run(ProcessGroup::Audio, CloseMode::BestEffort, true), &mut log, PatchEvent::Begin);
    assert!(matches!(cmd, PatchCommand::Patch));
}

#[test]
fn the_route_follows_only_a_successful_audio_patch() {
    assert_eq!(audio_route_after_patch(false, BroadcastMode::Wireless, false), None);
    assert_eq!(audio_route_after_patch(true, BroadcastMode::Wireless, false), Some(RouteAction::Apply));
    assert_eq!(audio_route_after_patch(true, BroadcastMode::Wireless, true), Some(RouteAction::Leave));
    assert_eq!(audio_route_after_patch(true, BroadcastMode::Wired, true), Some(RouteAction::Revert));
}
