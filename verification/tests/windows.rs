use dsh_launcher::config::{CloseBehavior, LauncherConfig};
use dsh_launcher::state::{Phase, RuntimeState};
use dsh_launcher::window::{
    close_requested, drop_tab, next_window_label, open_workspace, show_tab_drag_preview,
    title_script, tray_action, CloseAction, DropPlan, DropTarget, PendingTabs, TabDropOutcome,
    TrayAction, WindowCounter,
};

fn target(label: &str, hit: bool) -> DropTarget {
    DropTarget { label: label.to_string(), minimized: false, visible: true, hit }
}

#[test]
fn windows_are_numbered() {
    let mut counter = WindowCounter::new();
    assert_eq!(next_window_label(&mut counter), "control-1");
    assert_eq!(next_window_label(&mut counter), "control-2");
    counter.opened = 98;
    assert_eq!(next_window_label(&mut counter), "control-99");
}

#[test]
fn a_tab_waits_for_its_window_and_is_taken_once() {
    let mut tabs = PendingTabs::new();
    assert_eq!(tabs.take("control-1"), None);
    tabs.insert("control-1", "first");
    tabs.insert("control-2", "second");
    tabs.insert("control-1", "third");
    assert_eq!(tabs.take("control-1"), Some("third".to_string()));
    assert_eq!(tabs.take("control-1"), None);
    assert_eq!(tabs.take("control-2"), Some("second".to_string()));
    assert_eq!(tabs.take("control-2"), None);
}

#[test]
fn a_tab_is_adopted_by_the_window_below_the_cursor() {
    let targets = vec![
        target("control-1", true),
        target("control", false),
        target("tab-drag-preview", true),
        target("control-2", true),
        target("control-3", true),
    ];
    let plan = drop_tab(&targets, "control-1", 2);
    assert_eq!(plan, DropPlan::Adopt { target: 3, close_source: false });
    assert_eq!(plan.outcome(), TabDropOutcome::Adopted);
    let plan = drop_tab(&targets, "control-1", 1);
    assert_eq!(plan, DropPlan::Adopt { target: 3, close_source: true });
    // The main window stays.
    let plan = drop_tab(&targets, "control", 1);
    assert_eq!(plan, DropPlan::Adopt { target: 0, close_source: false });
}

#[test]
fn hidden_windows_take_no_tabs() {
    let mut minimized = target("control-2", true);
    minimized.minimized = true;
    let mut hidden = target("control-3", true);
    hidden.visible = false;
    let targets = vec![minimized, hidden];
    let plan = drop_tab(&targets, "control", 2);
    assert_eq!(plan, DropPlan::Detach);
    assert_eq!(plan.outcome(), TabDropOutcome::Detached);
    let plan = drop_tab(&targets, "control", 1);
    assert_eq!(plan, DropPlan::Keep);
    assert_eq!(plan.outcome(), TabDropOutcome::Kept);
    assert_eq!(drop_tab(&Vec::new(), "control", 0), DropPlan::Keep);
}

#[test]
fn the_page_is_shown_once_the_service_is_ready() {
    let mut runtime = RuntimeState::<u8>::default();
    assert_eq!(open_workspace(&runtime).unwrap_err(), "dsh Web 服务尚未就绪");
    runtime.phase = Phase::Starting;
    assert!(open_workspace(&runtime).is_err());
    runtime.phase = Phase::Ready;
    assert!(open_workspace(&runtime).is_ok());
}

#[test]
fn closing_windows() {
    let mut config = LauncherConfig::for_directories(None, None);
    assert_eq!(close_requested("control-1", &config), CloseAction::Close);
    assert_eq!(close_requested("control", &config), CloseAction::Hide);
    config.close_behavior = CloseBehavior::Exit;
    assert_eq!(close_requested("control", &config), CloseAction::Exit { stop_service: true });
    config.stop_dsh_on_exit = false;
    assert_eq!(close_requested("control", &config), CloseAction::Exit { stop_service: false });
    assert_eq!(close_requested("control-1", &config), CloseAction::Close);
}

#[test]
fn the_menu_of_the_tray() {
    let config = LauncherConfig::for_directories(None, None);
    assert_eq!(tray_action("open", &config), TrayAction::Open);
    assert_eq!(tray_action("settings", &config), TrayAction::Settings);
    assert_eq!(tray_action("restart", &config), TrayAction::Restart);
    assert_eq!(tray_action("quit", &config), TrayAction::Quit { stop_service: true });
    assert_eq!(tray_action("else", &config), TrayAction::Ignore);
}

#[test]
fn titles_are_quoted_in_scripts() {
    assert_eq!(title_script("\"a\""), "window.setTabTitle?.(\"a\")");
    assert_eq!(
        show_tab_drag_preview("a\"b\\c\n启").unwrap(),
        "window.setTabTitle?.(\"a\\\"b\\\\c\\n启\")"
    );
}
