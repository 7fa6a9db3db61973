use geese::build_panel::after_compile;
use geese::build_panel::after_package;
use geese::build_panel::android_toolchain_problem;
use geese::build_panel::export_dir;
use geese::build_panel::BuildEvent;
use geese::build_panel::BuildPanel;
use geese::build_panel::BuildPhase;
use geese::build_panel::BuildTarget;
use std::sync::mpsc;

#[test]
fn new_panel_is_idle_and_hidden() {
    let p = BuildPanel::new();
    assert!(!p.visible);
    assert_eq!(p.phase(), BuildPhase::Idle);
    assert_eq!(p.selected_target(), BuildTarget::Windows);
    assert!(p.log_lines().is_empty());
    assert_eq!(p.status(), (None, false));
}

#[test]
fn open_for_target_shows_panel() {
    let mut p = BuildPanel::new();
    p.open_for_target(BuildTarget::Android);
    assert!(p.visible);
    assert_eq!(p.selected_target(), BuildTarget::Android);
}

#[test]
fn phase_labels_and_activity() {
    assert_eq!(BuildPhase::Idle.label(), "Idle");
    assert_eq!(BuildPhase::Checking.label(), "Checking toolchain...");
    assert_eq!(BuildPhase::Compiling.label(), "Compiling...");
    assert_eq!(BuildPhase::Packaging.label(), "Packaging...");
    assert_eq!(BuildPhase::Done.label(), "Done");
    assert_eq!(BuildPhase::Failed.label(), "Failed");
    assert!(BuildPhase::Compiling.is_active());
    assert!(!BuildPhase::Done.is_active());
    assert!(!BuildPhase::Idle.is_active());
}

#[test]
fn poll_applies_events_until_finished() {
    let (tx, rx) = mpsc::channel();
    let mut p = BuildPanel::new();
    p.attach_build(rx);
    assert_eq!(p.phase(), BuildPhase::Checking);
    tx.send(BuildEvent::LogLine("line 1".into())).unwrap();
    tx.send(BuildEvent::PhaseChanged(BuildPhase::Compiling)).unwrap();
    tx.send(BuildEvent::Finished(Ok("out/game.exe".into()))).unwrap();
    tx.send(BuildEvent::LogLine("after finish".into())).unwrap();
    p.poll();
    assert_eq!(p.phase(), BuildPhase::Done);
    assert_eq!(p.log_lines(), &["line 1".to_string()][..]);
    assert_eq!(p.status(), (Some("Export: out/game.exe"), true));
    p.poll();
    assert_eq!(p.log_lines().len(), 1);
}

#[test]
fn poll_stops_when_no_event_waits() {
    let (tx, rx) = mpsc::channel();
    let mut p = BuildPanel::new();
    p.attach_build(rx);
    tx.send(BuildEvent::PhaseChanged(BuildPhase::Packaging)).unwrap();
    p.poll();
    assert_eq!(p.phase(), BuildPhase::Packaging);
    tx.send(BuildEvent::Finished(Err("boom".into()))).unwrap();
    p.poll();
    assert_eq!(p.phase(), BuildPhase::Failed);
    assert_eq!(p.status(), (Some("boom"), false));
}

#[test]
fn dropped_sender_fails_a_running_build() {
    let (tx, rx) = mpsc::channel::<BuildEvent>();
    let mut p = BuildPanel::new();
    p.attach_build(rx);
    drop(tx);
    p.poll();
    assert_eq!(p.phase(), BuildPhase::Failed);
    assert_eq!(p.status(), (Some("Build thread terminated unexpectedly."), false));
}

#[test]
fn log_keeps_last_200_lines() {
    let mut p = BuildPanel::new();
    for i in 0..205 {
        assert!(p.handle_event(BuildEvent::LogLine(format!("l{}", i))));
    }
    assert_eq!(p.log_lines().len(), 200);
    assert_eq!(p.log_lines()[0], "l5");
    assert_eq!(p.log_lines()[199], "l204");
}

#[test]
fn cancel_and_disconnect_when_idle() {
    let mut p = BuildPanel::new();
    p.cancel_build();
    assert_eq!(p.phase(), BuildPhase::Idle);
    assert_eq!(p.status(), (Some("Build cancelled."), false));
    p.handle_disconnected();
    assert_eq!(p.phase(), BuildPhase::Idle);
    assert!(!p.handle_event(BuildEvent::Finished(Ok("x".into()))));
}

#[test]
fn export_dir_per_target() {
    assert_eq!(export_dir("/p", "game", BuildTarget::Windows), "/p/export/game/windows");
    assert_eq!(export_dir("proj", "g", BuildTarget::Android), "proj/export/g/android");
}

#[test]
fn build_steps_choose_the_events() {
    assert!(android_toolchain_problem(false, None).unwrap().starts_with("cargo-ndk not installed"));
    assert!(android_toolchain_problem(true, None).is_none());
    assert!(android_toolchain_problem(true, Some("x86_64\naarch64-linux-android\n")).is_none());
    assert!(android_toolchain_problem(true, Some("x86_64\n")).unwrap().starts_with("aarch64-linux-android target"));
    assert!(matches!(after_compile(true)[..], [BuildEvent::PhaseChanged(BuildPhase::Packaging)]));
    assert_eq!(after_compile(false).len(), 2);
    let done = after_package(Ok("/out/game.exe".to_string()));
    assert!(matches!(&done[..], [BuildEvent::PhaseChanged(BuildPhase::Done), BuildEvent::Finished(Ok(p))] if p == "/out/game.exe"));
}

#[test]
fn build_start_events_name_the_target_and_stop_without_root() {
    let ok = geese::build_panel::build_start_events(BuildTarget::Windows, true);
    assert_eq!(ok.len(), 1);
    assert!(matches!(&ok[0], BuildEvent::LogLine(l) if l == "Building for Windows..."));
    let missing = geese::build_panel::build_start_events(BuildTarget::Android, false);
    assert_eq!(missing.len(), 2);
    assert!(matches!(&missing[0], BuildEvent::LogLine(l) if l == "Building for Android..."));
    assert!(matches!(&missing[1], BuildEvent::Finished(Err(m)) if m == "Cannot determine engine root (set GEESE_ROOT env var)."));
}

#[test]
fn android_check_events_follow_the_toolchain() {
    let (ev, go) = geese::build_panel::android_check_events(false, None);
    assert!(!go);
    assert_eq!(ev.len(), 2);
    assert!(matches!(&ev[0], BuildEvent::LogLine(l) if l == "Checking cargo-ndk..."));
    assert!(matches!(&ev[1], BuildEvent::Finished(Err(m)) if m.starts_with("cargo-ndk not installed.")));
    let (ev, go) = geese::build_panel::android_check_events(true, Some("x86_64-unknown-linux-gnu\n"));
    assert!(!go);
    assert_eq!(ev.len(), 3);
    assert!(matches!(&ev[1], BuildEvent::LogLine(l) if l == "Checking aarch64-linux-android target..."));
    assert!(matches!(&ev[2], BuildEvent::Finished(Err(m)) if m.starts_with("aarch64-linux-android target not installed.")));
    let (ev, go) = geese::build_panel::android_check_events(true, Some("aarch64-linux-android\n"));
    assert!(go);
    assert_eq!(ev.len(), 2);
    let (ev, go) = geese::build_panel::android_check_events(true, None);
    assert!(go);
    assert_eq!(ev.len(), 2);
}
