use velo_shell::card::{card_margins, output_width, toggle_action, CardAction, TriggerGeometry};
use velo_shell::power::{action_at, command_for, menu, Action, Command};

fn geometry() -> TriggerGeometry {
    TriggerGeometry {
        output_width: 1920,
        window_width: 400,
        anchored_left: false,
        anchored_right: true,
        margin_left: 0,
        margin_right: 12,
        margin_top: 8,
        x: 100,
        y: 4,
        width: 31,
        height: 30,
        card_width: Some(300),
    }
}

#[test]
fn output_width_falls_back() {
    assert_eq!(output_width(Some(2560)), 2560);
    assert_eq!(output_width(Some(0)), 1536);
    assert_eq!(output_width(None), 1536);
}

#[test]
fn toggle_hides_open_card() {
    assert_eq!(toggle_action(true), CardAction::Hide);
    assert_eq!(toggle_action(false), CardAction::Open);
}

#[test]
fn card_opens_under_trigger() {
    // window left = 1920 - 12 - 400 = 1508; centre = 1508 + 100 + 15 = 1623
    assert_eq!(card_margins(&geometry()), Some((1473, 48)));
    let mut g = geometry();
    g.x = 380;
    // centre 1903 - 150 = 1753 clamps to 1920 - 300 - 6 = 1614
    assert_eq!(card_margins(&g), Some((1614, 48)));
    let mut g = geometry();
    g.anchored_right = false;
    g.anchored_left = true;
    g.margin_left = 12;
    g.x = 0;
    g.card_width = None;
    // centre 12 + 0 + 15 = 27 - 124 clamps to 6
    assert_eq!(card_margins(&g), Some((6, 48)));
    let mut g = geometry();
    g.anchored_right = false;
    g.window_width = 301;
    g.card_width = Some(-5);
    // centred window: (1920 - 301) / 2 = 809; centre 809 + 100 + 15 = 924 - 124 = 800
    assert_eq!(card_margins(&g), Some((800, 48)));
    let mut g = geometry();
    g.margin_top = -100;
    assert_eq!(card_margins(&g), Some((1473, 0)));
}

#[test]
fn card_placement_overflow_is_reported() {
    let mut g = geometry();
    g.x = i32::MAX;
    assert_eq!(card_margins(&g), None);
}

#[test]
fn power_menu_entries() {
    let m = menu();
    let titles: Vec<&str> = m.iter().map(|r| r.title.as_str()).collect();
    assert_eq!(titles, vec!["Lock", "Suspend", "Log Out", "Restart", "Shut Down"]);
    assert!(m[4].danger && !m[0].danger);
    assert_eq!(m[1].icon, "weather-clear-night-symbolic");
    assert_eq!(action_at(2), Some(Action::Logout));
    assert_eq!(action_at(-1), None);
    assert_eq!(action_at(5), None);
    match command_for(Action::Shutdown) {
        Command::Spawn { program, args } => {
            assert_eq!(program, "systemctl");
            assert_eq!(args, vec!["poweroff".to_string()]);
        }
        _ => panic!("expected a program"),
    }
    match command_for(Action::Logout) {
        Command::Compositor { args } => assert_eq!(args, vec!["exit".to_string()]),
        _ => panic!("expected a compositor action"),
    }
    match command_for(Action::Lock) {
        Command::Spawn { program, args } => {
            assert_eq!(program, "loginctl");
            assert_eq!(args, vec!["lock-session".to_string()]);
        }
        _ => panic!("expected a program"),
    }
}
