//! Power menu: its entries, and what each one runs.
use vstd::prelude::*;

use crate::text::string_from;

verus! {

/// A power menu entry's effect.
#[derive(PartialEq, Eq, Structural, Clone, Copy, Debug)]
pub enum Action {
    Lock,
    Logout,
    Suspend,
    Reboot,
    Shutdown,
}

/// One row of the menu.
pub struct MenuRow {
    pub icon: String,
    pub title: String,
    pub danger: bool,
    pub action: Action,
}

/// What an entry runs: a program with arguments, or a compositor action.
pub enum Command {
    Spawn { program: String, args: Vec<String> },
    Compositor { args: Vec<String> },
}

/// The menu, top to bottom: `(icon, title, danger, action)`.
pub open spec fn menu_spec() -> Seq<(Seq<char>, Seq<char>, bool, Action)> {
    seq![
        ("system-lock-screen-symbolic"@, "Lock"@, false, Action::Lock),
        ("weather-clear-night-symbolic"@, "Suspend"@, false, Action::Suspend),
        ("system-log-out-symbolic"@, "Log Out"@, false, Action::Logout),
        ("system-reboot-symbolic"@, "Restart"@, false, Action::Reboot),
        ("system-shutdown-symbolic"@, "Shut Down"@, true, Action::Shutdown),
    ]
}

/// What an action runs: `(true, program, args)` for a program, `(false, _,
/// args)` for a compositor action.
pub open spec fn command_spec(a: Action) -> (bool, Seq<char>, Seq<Seq<char>>) {
    match a {
        Action::Lock => (true, "loginctl"@, seq!["lock-session"@]),
        Action::Suspend => (true, "systemctl"@, seq!["suspend"@]),
        Action::Logout => (false, seq![], seq!["exit"@]),
        Action::Reboot => (true, "systemctl"@, seq!["reboot"@]),
        Action::Shutdown => (true, "systemctl"@, seq!["poweroff"@]),
    }
}

pub open spec fn command_model(c: Command) -> (bool, Seq<char>, Seq<Seq<char>>) {
    match c {
        Command::Spawn { program, args } => (true, program@, args.deep_view()),
        Command::Compositor { args } => (false, seq![], args.deep_view()),
    }
}

fn row(icon: &str, title: &str, danger: bool, action: Action) -> (r: MenuRow)
    ensures
        r.icon@ == icon@ && r.title@ == title@ && r.danger == danger && r.action == action,
{
    MenuRow { icon: string_from(icon), title: string_from(title), danger, action }
}

/// The menu's rows, top to bottom.
pub fn menu() -> (rows: Vec<MenuRow>)
    ensures
        rows.len() == menu_spec().len(),
        forall|i: int| 0 <= i < rows.len() ==> ((#[trigger] rows@[i]).icon@, rows@[i].title@, rows@[i].danger,
            rows@[i].action) == menu_spec()[i],
{
    let mut rows: Vec<MenuRow> = Vec::new();
    rows.push(row("system-lock-screen-symbolic", "Lock", false, Action::Lock));
    rows.push(row("weather-clear-night-symbolic", "Suspend", false, Action::Suspend));
    rows.push(row("system-log-out-symbolic", "Log Out", false, Action::Logout));
    rows.push(row("system-reboot-symbolic", "Restart", false, Action::Reboot));
    rows.push(row("system-shutdown-symbolic", "Shut Down", true, Action::Shutdown));
    rows
}

/// The action of the activated row `index` (`None` for a row that is not in
/// the menu).
pub fn action_at(index: i32) -> (a: Option<Action>)
    ensures
        a == (if 0 <= index < menu_spec().len() { Some(menu_spec()[index as int].3) } else { None::<Action> }),
{
    if index == 0 {
        Some(Action::Lock)
    } else if index == 1 {
        Some(Action::Suspend)
    } else if index == 2 {
        Some(Action::Logout)
    } else if index == 3 {
        Some(Action::Reboot)
    } else if index == 4 {
        Some(Action::Shutdown)
    } else {
        None
    }
}

fn one_arg(a: &str) -> (v: Vec<String>)
    ensures
        v.deep_view() == seq![a@],
{
    let mut v: Vec<String> = Vec::new();
    v.push(string_from(a));
    assert(v.deep_view() =~= seq![a@]);
    v
}

/// What an action runs: screen lock through `loginctl`, log out through the
/// compositor, suspend, restart and shut down through `systemctl`.
pub fn command_for(a: Action) -> (c: Command)
    ensures
        command_model(c) == command_spec(a),
{
    match a {
        Action::Lock => Command::Spawn { program: string_from("loginctl"), args: one_arg("lock-session") },
        Action::Suspend => Command::Spawn { program: string_from("systemctl"), args: one_arg("suspend") },
        Action::Logout => Command::Compositor { args: one_arg("exit") },
        Action::Reboot => Command::Spawn { program: string_from("systemctl"), args: one_arg("reboot") },
        Action::Shutdown => Command::Spawn { program: string_from("systemctl"), args: one_arg("poweroff") },
    }
}


// ───────────────────────── laws ─────────────────────────

/// Distinct actions run distinct commands: no two menu entries do the same
/// thing.
pub proof fn law_distinct_commands(a: Action, b: Action)
    requires
        a != b,
    ensures
        command_spec(a) != command_spec(b),
{
    reveal_strlit("loginctl");
    reveal_strlit("systemctl");
    reveal_strlit("lock-session");
    reveal_strlit("suspend");
    reveal_strlit("exit");
    reveal_strlit("reboot");
    reveal_strlit("poweroff");
    let (ca, cb) = (command_spec(a), command_spec(b));
    if ca == cb {
        assert(ca.1 == cb.1 && ca.2[0] == cb.2[0]);
        assert(ca.1.len() == cb.1.len() && ca.2[0].len() == cb.2[0].len());
    }
}

/// Each menu row runs what its title says: `Lock` locks the session through
/// `loginctl`, `Suspend`, `Restart` and `Shut Down` ask `systemctl` to
/// suspend, reboot and power off, and `Log Out` asks the compositor to exit.
pub proof fn law_row_runs_its_title(i: int)
    requires
        0 <= i < menu_spec().len(),
    ensures
        ({
            let (_, title, _, action) = menu_spec()[i];
            let c = command_spec(action);
            &&& title == "Lock"@ ==> c == (true, "loginctl"@, seq!["lock-session"@])
            &&& title == "Suspend"@ ==> c == (true, "systemctl"@, seq!["suspend"@])
            &&& title == "Log Out"@ ==> !c.0 && c.2 == seq!["exit"@]
            &&& title == "Restart"@ ==> c == (true, "systemctl"@, seq!["reboot"@])
            &&& title == "Shut Down"@ ==> c == (true, "systemctl"@, seq!["poweroff"@])
        }),
{
    reveal_strlit("Lock");
    reveal_strlit("Suspend");
    reveal_strlit("Log Out");
    reveal_strlit("Restart");
    reveal_strlit("Shut Down");
    assert("Lock"@ != "Suspend"@) by { assert("Lock"@.len() != "Suspend"@.len()); }
    assert("Lock"@ != "Log Out"@) by { assert("Lock"@.len() != "Log Out"@.len()); }
    assert("Lock"@ != "Restart"@) by { assert("Lock"@.len() != "Restart"@.len()); }
    assert("Lock"@ != "Shut Down"@) by { assert("Lock"@.len() != "Shut Down"@.len()); }
    assert("Suspend"@ != "Log Out"@) by { assert("Suspend"@[0] != "Log Out"@[0]); }
    assert("Suspend"@ != "Restart"@) by { assert("Suspend"@[0] != "Restart"@[0]); }
    assert("Suspend"@ != "Shut Down"@) by { assert("Suspend"@.len() != "Shut Down"@.len()); }
    assert("Log Out"@ != "Restart"@) by { assert("Log Out"@[0] != "Restart"@[0]); }
    assert("Log Out"@ != "Shut Down"@) by { assert("Log Out"@.len() != "Shut Down"@.len()); }
    assert("Restart"@ != "Shut Down"@) by { assert("Restart"@.len() != "Shut Down"@.len()); }
    let m = menu_spec();
    assert(m[0].1 == "Lock"@ && m[0].3 == Action::Lock);
    assert(m[1].1 == "Suspend"@ && m[1].3 == Action::Suspend);
    assert(m[2].1 == "Log Out"@ && m[2].3 == Action::Logout);
    assert(m[3].1 == "Restart"@ && m[3].3 == Action::Reboot);
    assert(m[4].1 == "Shut Down"@ && m[4].3 == Action::Shutdown);
}
}
