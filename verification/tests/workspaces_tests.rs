use std::collections::HashMap;
use velo_shell::workspaces::{
    apply, class_change, event_kind, render, seed_state, ClassChange, Event, EventKind, State,
    WindowInfo, WorkspaceInfo,
};

fn ws(id: u64, idx: usize, name: Option<&str>, output: Option<&str>, active: bool, focused: bool) -> WorkspaceInfo {
    WorkspaceInfo {
        id,
        idx,
        name: name.map(|n| n.to_string()),
        output: output.map(|o| o.to_string()),
        is_active: active,
        is_focused: focused,
    }
}

fn win(id: u64, title: Option<&str>, workspace: Option<u64>, focused: bool) -> WindowInfo {
    WindowInfo { id, title: title.map(|t| t.to_string()), workspace_id: workspace, is_focused: focused }
}

fn two_outputs() -> State {
    seed_state(
        Some(vec![
            ws(1, 1, None, Some("DP-1"), true, true),
            ws(2, 2, None, Some("DP-1"), false, false),
            ws(3, 1, None, Some("HDMI-1"), true, false),
        ]),
        Some(vec![win(10, Some("Terminal"), Some(1), true), win(11, Some("Editor"), Some(3), false)]),
    )
}

#[test]
fn event_names_are_recognised() {
    assert_eq!(event_kind("WorkspacesChanged"), EventKind::WorkspacesChanged);
    assert_eq!(event_kind("WorkspaceActivated"), EventKind::WorkspaceActivated);
    assert_eq!(event_kind("WindowsChanged"), EventKind::WindowsChanged);
    assert_eq!(event_kind("WindowOpenedOrChanged"), EventKind::WindowOpenedOrChanged);
    assert_eq!(event_kind("WindowClosed"), EventKind::WindowClosed);
    assert_eq!(event_kind("WindowFocusChanged"), EventKind::WindowFocusChanged);
    assert_eq!(event_kind("KeyboardLayoutsChanged"), EventKind::Other);
    assert_eq!(event_kind("windowclosed"), EventKind::Other);
}

#[test]
fn seed_focuses_first_focused_window() {
    let s = two_outputs();
    assert_eq!(s.focused, Some(10));
    assert_eq!(s.windows.len(), 2);
    assert_eq!(s.workspaces.len(), 3);
    let empty = seed_state(None, None);
    assert!(empty.workspaces.is_empty() && empty.windows.is_empty() && empty.focused.is_none());
}

#[test]
fn activation_is_per_output_and_focus_is_global() {
    let mut s = two_outputs();
    assert!(apply(&mut s, Event::WorkspaceActivated { id: Some(2), focused: None }));
    let active: Vec<bool> = s.workspaces.iter().map(|w| w.is_active).collect();
    let focused: Vec<bool> = s.workspaces.iter().map(|w| w.is_focused).collect();
    assert_eq!(active, vec![false, true, true]);
    assert_eq!(focused, vec![false, true, false]);
}

#[test]
fn activation_without_focus_keeps_focus() {
    let mut s = two_outputs();
    assert!(apply(&mut s, Event::WorkspaceActivated { id: Some(2), focused: Some(false) }));
    let focused: Vec<bool> = s.workspaces.iter().map(|w| w.is_focused).collect();
    assert_eq!(focused, vec![true, false, false]);
}

#[test]
fn activation_of_unknown_workspace_clears_outputless_ones() {
    let mut s = seed_state(
        Some(vec![ws(1, 1, None, None, true, false), ws(2, 2, None, Some("DP-1"), true, false)]),
        None,
    );
    assert!(apply(&mut s, Event::WorkspaceActivated { id: Some(99), focused: Some(false) }));
    let active: Vec<bool> = s.workspaces.iter().map(|w| w.is_active).collect();
    assert_eq!(active, vec![false, true]);
}

#[test]
fn window_events_update_the_model() {
    let mut s = two_outputs();
    assert!(apply(&mut s, Event::WindowOpenedOrChanged { window: Some(win(12, Some("Mail"), Some(2), true)) }));
    assert_eq!(s.focused, Some(12));
    assert_eq!(s.windows.get(&12).and_then(|w| w.title.clone()), Some("Mail".to_string()));
    assert!(apply(&mut s, Event::WindowClosed { id: Some(12) }));
    assert_eq!(s.focused, None);
    assert!(!s.windows.contains_key(&12));
    assert!(apply(&mut s, Event::WindowClosed { id: Some(11) }));
    assert_eq!(s.windows.len(), 1);
    assert!(apply(&mut s, Event::WindowFocusChanged { id: Some(10) }));
    assert_eq!(s.focused, Some(10));
    assert!(apply(&mut s, Event::WindowFocusChanged { id: None }));
    assert_eq!(s.focused, None);
}

#[test]
fn window_list_replaces_windows_later_duplicate_wins() {
    let mut s = two_outputs();
    assert!(apply(
        &mut s,
        Event::WindowsChanged {
            windows: Some(vec![win(5, Some("old"), Some(1), false), win(6, None, None, true), win(5, Some("new"), Some(2), false)]),
        }
    ));
    assert_eq!(s.windows.len(), 2);
    assert_eq!(s.windows.get(&5).and_then(|w| w.title.clone()), Some("new".to_string()));
    assert_eq!(s.focused, Some(6));
}

#[test]
fn undecodable_events_change_nothing() {
    let mut s = two_outputs();
    assert!(!apply(&mut s, Event::WorkspacesChanged { workspaces: None }));
    assert!(!apply(&mut s, Event::WorkspaceActivated { id: None, focused: Some(true) }));
    assert!(!apply(&mut s, Event::WindowsChanged { windows: None }));
    assert!(!apply(&mut s, Event::WindowOpenedOrChanged { window: None }));
    assert!(!apply(&mut s, Event::WindowClosed { id: None }));
    assert!(!apply(&mut s, Event::Other));
    assert_eq!(s.focused, Some(10));
    assert_eq!(s.windows.len(), 2);
    let active: Vec<bool> = s.workspaces.iter().map(|w| w.is_active).collect();
    assert_eq!(active, vec![true, false, true]);
}

#[test]
fn workspaces_changed_replaces_list() {
    let mut s = two_outputs();
    assert!(apply(&mut s, Event::WorkspacesChanged { workspaces: Some(vec![ws(7, 1, Some("web"), None, true, true)]) }));
    assert_eq!(s.workspaces.len(), 1);
    assert_eq!(s.workspaces[0].id, 7);
}

#[test]
fn render_sorts_by_index_stably_and_labels_pills() {
    let s = State {
        workspaces: vec![
            ws(3, 2, Some("chat"), None, false, false),
            ws(1, 1, None, None, true, true),
            ws(4, 2, None, None, false, false),
            ws(2, 3, None, None, false, false),
        ],
        windows: HashMap::from([(10, win(10, Some(""), Some(3), true)), (11, win(11, Some("x"), Some(9), false))]),
        focused: Some(10),
    };
    let row = render(&s);
    let targets: Vec<usize> = row.pills.iter().map(|p| p.target).collect();
    assert_eq!(targets, vec![1, 2, 2, 3]);
    let texts: Vec<String> = row.pills.iter().map(|p| p.text.clone()).collect();
    assert_eq!(texts, vec!["1", "chat", "", ""]);
    assert!(row.pills[0].active && !row.pills[0].occupied && !row.pills[0].empty && row.pills[0].focused);
    assert!(!row.pills[1].active && row.pills[1].occupied && !row.pills[1].empty);
    assert!(!row.pills[2].active && !row.pills[2].occupied && row.pills[2].empty);
    assert!(row.pills[3].empty);
    assert_eq!(row.title, "Desktop");
}

#[test]
fn render_title_is_focused_window_title() {
    let mut s = two_outputs();
    assert_eq!(render(&s).title, "Terminal");
    apply(&mut s, Event::WindowFocusChanged { id: Some(404) });
    assert_eq!(render(&s).title, "Desktop");
    apply(&mut s, Event::WindowOpenedOrChanged { window: Some(win(20, None, Some(1), true)) });
    assert_eq!(render(&s).title, "Desktop");
}

#[test]
fn class_changes_only_when_needed() {
    assert_eq!(class_change(false, true), ClassChange::Add);
    assert_eq!(class_change(true, false), ClassChange::Remove);
    assert_eq!(class_change(true, true), ClassChange::Keep);
    assert_eq!(class_change(false, false), ClassChange::Keep);
}
