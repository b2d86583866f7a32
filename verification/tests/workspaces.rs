use rars::bar::{bound_output_name, Bar, Message as BarMessage};
use rars::clock::{Clock, ClockTime, Message as ClockMessage};
use rars::hyprland::{workspace_color, Hyprland, Message, WorkspaceInfo, WorkspaceSnapshot, WorkspaceState};

fn info(name: &str, windows: u16) -> WorkspaceInfo {
    WorkspaceInfo { name: name.to_string(), windows }
}

fn names(v: &[&str]) -> Vec<String> {
    v.iter().map(|s| s.to_string()).collect()
}

#[test]
fn new_checks_the_configured_workspaces() {
    let snap = WorkspaceSnapshot {
        workspaces: vec![info("1", 0), info("2", 3), info("9", 1)],
        active: "3".to_string(),
    };
    let h = Hyprland::new(&names(&["1", "2", "3", "2"]), &snap);
    assert_eq!(
        h.states(),
        vec![WorkspaceState::Inactive, WorkspaceState::Occupied, WorkspaceState::Active]
    );
}

#[test]
fn update_follows_the_latest_snapshot() {
    let first = WorkspaceSnapshot { workspaces: vec![info("1", 2)], active: "1".to_string() };
    let mut h = Hyprland::new(&names(&["1", "2", "3"]), &first);
    assert_eq!(
        h.states(),
        vec![WorkspaceState::Active, WorkspaceState::Inactive, WorkspaceState::Inactive]
    );
    let second = WorkspaceSnapshot {
        workspaces: vec![info("1", 2), info("3", 1), info("2", 0)],
        active: "2".to_string(),
    };
    h.update(Message::WorkspaceChanged(second.clone()));
    assert_eq!(
        h.states(),
        vec![WorkspaceState::Occupied, WorkspaceState::Active, WorkspaceState::Occupied]
    );
    // checking again against the same snapshot changes nothing
    h.check_workspaces(&second);
    assert_eq!(
        h.states(),
        vec![WorkspaceState::Occupied, WorkspaceState::Active, WorkspaceState::Occupied]
    );
}

#[test]
fn unknown_workspaces_are_ignored() {
    let snap = WorkspaceSnapshot {
        workspaces: vec![info("special", 4), info("7", 1)],
        active: "special".to_string(),
    };
    let h = Hyprland::new(&names(&["1", "2"]), &snap);
    assert_eq!(h.states(), vec![WorkspaceState::Inactive, WorkspaceState::Inactive]);
    let empty = Hyprland::new(&Vec::new(), &snap);
    assert_eq!(empty.states(), Vec::<WorkspaceState>::new());
}

#[test]
fn active_wins_over_occupied() {
    let snap = WorkspaceSnapshot { workspaces: vec![info("1", 5)], active: "1".to_string() };
    let h = Hyprland::new(&names(&["1"]), &snap);
    assert_eq!(h.states(), vec![WorkspaceState::Active]);
}

#[test]
fn workspace_colours() {
    assert_eq!(workspace_color(WorkspaceState::Active), 0xbb9af7);
    assert_eq!(workspace_color(WorkspaceState::Occupied), 0xa9b1d6);
    assert_eq!(workspace_color(WorkspaceState::Inactive), 0x565f89);
}

#[test]
fn clock_shows_the_last_tick() {
    let mut c = Clock::new();
    assert_eq!(c.time_now(), ClockTime { secs: 0, nanos: 0 });
    let t = ClockTime { secs: 1_700_000_000, nanos: 5 };
    c.update(ClockMessage::Tick(t));
    assert_eq!(c.time_now(), t);
}

#[test]
fn bar_routes_each_event_to_its_module() {
    let snap = WorkspaceSnapshot { workspaces: vec![], active: "1".to_string() };
    let mut bar = Bar::new(&names(&["1", "2"]), &snap);
    assert_eq!(bar.namespace(), "Rarsv2");
    assert_eq!(bar.start().states(), vec![WorkspaceState::Active, WorkspaceState::Inactive]);
    let t = ClockTime { secs: 60, nanos: 0 };
    bar.update(BarMessage::Clock(ClockMessage::Tick(t)));
    assert_eq!(bar.center().time_now(), t);
    assert_eq!(bar.start().states(), vec![WorkspaceState::Active, WorkspaceState::Inactive]);
    let snap2 = WorkspaceSnapshot { workspaces: vec![info("1", 1)], active: "2".to_string() };
    bar.update(BarMessage::Hyprland(Message::WorkspaceChanged(snap2)));
    assert_eq!(bar.start().states(), vec![WorkspaceState::Occupied, WorkspaceState::Active]);
    assert_eq!(bar.center().time_now(), t);
}

#[test]
fn output_name_is_the_first_argument() {
    assert_eq!(bound_output_name(&names(&["rars"])), None);
    assert_eq!(bound_output_name(&names(&["rars", "DP-1"])), Some("DP-1".to_string()));
    assert_eq!(bound_output_name(&names(&["rars", "DP-1", "x"])), Some("DP-1".to_string()));
}
