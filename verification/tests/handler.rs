use reovim::handler::{NeovimHandler, NotifyAction, RunningTracker};

#[test]
fn requests() {
    let h = NeovimHandler::new();
    assert_eq!(h.handle_request("neovide.get_clipboard"), Err("get remote clipboard ignored."));
    assert_eq!(h.handle_request("anything"), Ok("rpcrequest not handled"));
}

#[test]
fn notifications() {
    let h = NeovimHandler::new();
    assert_eq!(h.handle_notify("redraw"), NotifyAction::Redraw);
    assert_eq!(h.handle_notify("setting_changed"), NotifyAction::SettingChanged);
    assert_eq!(h.handle_notify("neovide.quit"), NotifyAction::Quit);
    assert_eq!(h.handle_notify("neovide.set_clipboard"), NotifyAction::SetClipboard);
    assert_eq!(h.handle_notify("Redraw"), NotifyAction::Ignore);
}

#[test]
fn exit_codes() {
    assert_eq!(NeovimHandler::exit_code(3), 3);
    assert_eq!(NeovimHandler::exit_code(-1), -1);
    assert_eq!(NeovimHandler::exit_code(1 << 32), 0);
}

#[test]
fn running_tracker() {
    let mut t = RunningTracker::new();
    assert!(t.is_running());
    assert_eq!(t.exit_code(), 0);
    t.quit();
    assert!(!t.is_running());
    assert_eq!(t.exit_code(), 0);
    let mut t = RunningTracker::new();
    t.quit_with_code(2);
    assert!(!t.is_running());
    assert_eq!(t.exit_code(), 2);
}

#[test]
fn quit_notification_sets_the_exit_code() {
    let h = NeovimHandler::new();
    let mut t = RunningTracker::new();
    h.notify_tracker("redraw", None, &mut t);
    assert!(t.is_running());
    h.notify_tracker("neovide.quit", Some((1 << 32) + 7), &mut t);
    assert!(!t.is_running());
    assert_eq!(t.exit_code(), 7);
}
