use lab_suite::controller::{
    any_pressed, last_command, wants_repaint, RunFlag, Shared, TrayCmd, WindowAction, PENDING_CAP,
};

#[test]
fn pending_texts_are_bounded_keeping_the_newest() {
    let mut s = Shared::new();
    let first: Vec<String> = (0..PENDING_CAP).map(|i| format!("a{i}")).collect();
    assert!(s.absorb(first));
    assert!(s.absorb(vec!["b0".to_string(), "b1".to_string()]));
    assert_eq!(s.new_items.len(), PENDING_CAP);
    assert_eq!(s.new_items[0], "a2");
    assert_eq!(s.new_items[PENDING_CAP - 1], "b1");
    assert!(!s.absorb(vec![]));
}

#[test]
fn hotkey_toggles_the_window() {
    let mut s = Shared::new();
    assert_eq!(s.toggle_window(true), WindowAction::Hide);
    assert!(!s.want_focus);
    assert_eq!(s.toggle_window(false), WindowAction::Show);
    assert!(s.want_focus);
}

#[test]
fn quit_goes_through_the_interface_only_when_visible() {
    let mut s = Shared::new();
    assert_eq!(s.on_command(Some(TrayCmd::Quit), false, true), WindowAction::ForceQuit);
    assert!(!s.quit);
    assert_eq!(s.on_command(Some(TrayCmd::Quit), true, true), WindowAction::Repaint);
    assert!(s.quit);
    let mut t = Shared::new();
    assert_eq!(t.on_command(Some(TrayCmd::Quit), false, false), WindowAction::Repaint);
    assert!(t.quit);
    assert_eq!(t.on_command(Some(TrayCmd::ShowHide), false, false), WindowAction::Nothing);
    assert_eq!(t.on_command(None, true, true), WindowAction::Nothing);
}

#[test]
fn second_instance_shows_and_focuses() {
    let mut s = Shared::new();
    assert_eq!(s.on_show_request(true), WindowAction::Show);
    assert!(s.want_focus);
    let mut t = Shared::new();
    assert_eq!(t.on_show_request(false), WindowAction::Repaint);
}

#[test]
fn tick_inputs() {
    assert_eq!(last_command(&vec![TrayCmd::Quit, TrayCmd::ShowHide]), Some(TrayCmd::ShowHide));
    assert_eq!(last_command(&vec![]), None);
    assert!(any_pressed(&vec![false, true]));
    assert!(!any_pressed(&vec![false, false]));
    assert!(wants_repaint(false, false, false, true, true));
    assert!(!wants_repaint(true, true, true, true, false));
    let mut f = RunFlag::new();
    assert!(f.keep_running());
    f.stop();
    assert!(!f.keep_running());
}
