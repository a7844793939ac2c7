//! The desktop row: an in-memory model of niri's workspaces and windows,
//! folded from the compositor's event stream, and what the row shows for it.
use std::collections::HashMap;
use vstd::prelude::*;

use crate::order::{in_order, is_stable_order, stable_order};
use vstd::std_specs::iter::IteratorSpec;
use crate::text::{
    chars_eq, chars_of, decimal, decimal_chars, decimal_value, is_digit, lemma_decimal_shape, string_from,
    string_of,
};

verus! {

broadcast use vstd::std_specs::hash::group_hash_axioms;

/// One niri workspace, as the compositor reports it.
pub struct WorkspaceInfo {
    pub id: u64,
    pub idx: usize,
    pub name: Option<String>,
    pub output: Option<String>,
    pub is_active: bool,
    pub is_focused: bool,
}

/// One niri window, as the compositor reports it.
pub struct WindowInfo {
    pub id: u64,
    pub title: Option<String>,
    pub workspace_id: Option<u64>,
    pub is_focused: bool,
}

/// The slice of niri state the desktop row cares about.
pub struct State {
    pub workspaces: Vec<WorkspaceInfo>,
    pub windows: HashMap<u64, WindowInfo>,
    pub focused: Option<u64>,
}

/// The mathematical content of a [`State`].
pub struct StateModel {
    pub workspaces: Seq<WorkspaceInfo>,
    pub windows: Map<u64, WindowInfo>,
    pub focused: Option<u64>,
}

impl View for State {
    type V = StateModel;

    open spec fn view(&self) -> StateModel {
        StateModel { workspaces: self.workspaces@, windows: self.windows@, focused: self.focused }
    }
}

/// Which event-stream message a line carries, by its name.
#[derive(PartialEq, Eq, Structural, Clone, Copy, Debug)]
pub enum EventKind {
    WorkspacesChanged,
    WorkspaceActivated,
    WindowsChanged,
    WindowOpenedOrChanged,
    WindowClosed,
    WindowFocusChanged,
    Other,
}

/// One event-stream message with the payload fields the row reads; a field
/// is `None` where the payload lacks it or it does not decode.
pub enum Event {
    WorkspacesChanged { workspaces: Option<Vec<WorkspaceInfo>> },
    WorkspaceActivated { id: Option<u64>, focused: Option<bool> },
    WindowsChanged { windows: Option<Vec<WindowInfo>> },
    WindowOpenedOrChanged { window: Option<WindowInfo> },
    WindowClosed { id: Option<u64> },
    WindowFocusChanged { id: Option<u64> },
    Other,
}

// ───────────────────────── specifications ─────────────────────────

pub open spec fn opt_view(o: Option<String>) -> Option<Seq<char>> {
    match o {
        Some(s) => Some(s@),
        None => None,
    }
}

/// The kind of event an event name stands for.
pub open spec fn kind_of(name: Seq<char>) -> EventKind {
    if name == "WorkspacesChanged"@ {
        EventKind::WorkspacesChanged
    } else if name == "WorkspaceActivated"@ {
        EventKind::WorkspaceActivated
    } else if name == "WindowsChanged"@ {
        EventKind::WindowsChanged
    } else if name == "WindowOpenedOrChanged"@ {
        EventKind::WindowOpenedOrChanged
    } else if name == "WindowClosed"@ {
        EventKind::WindowClosed
    } else if name == "WindowFocusChanged"@ {
        EventKind::WindowFocusChanged
    } else {
        EventKind::Other
    }
}

/// Position of the first workspace with id `id`, or `ws.len()`.
pub open spec fn first_with_id(ws: Seq<WorkspaceInfo>, id: u64) -> int
    decreases ws.len(),
{
    if ws.len() == 0 {
        0
    } else if ws[0].id == id {
        0
    } else {
        1 + first_with_id(ws.drop_first(), id)
    }
}

/// The output of the first workspace with id `id`; `None` if there is no
/// such workspace or it names no output.
pub open spec fn activation_output(ws: Seq<WorkspaceInfo>, id: u64) -> Option<Seq<char>> {
    let t = first_with_id(ws, id);
    if 0 <= t < ws.len() {
        opt_view(ws[t].output)
    } else {
        None
    }
}

/// Workspace `w` once workspace `id` is activated: on `id`'s output only `id`
/// is active; with `focus`, only `id` is focused.
pub open spec fn activated(w: WorkspaceInfo, id: u64, out: Option<Seq<char>>, focus: bool) -> WorkspaceInfo {
    WorkspaceInfo {
        is_active: if opt_view(w.output) == out {
            w.id == id
        } else {
            w.is_active
        },
        is_focused: if focus {
            w.id == id
        } else {
            w.is_focused
        },
        ..w
    }
}

/// The windows keyed by id; of two windows with one id the later wins.
pub open spec fn windows_map(wins: Seq<WindowInfo>) -> Map<u64, WindowInfo>
    decreases wins.len(),
{
    if wins.len() == 0 {
        Map::empty()
    } else {
        windows_map(wins.drop_last()).insert(wins.last().id, wins.last())
    }
}

/// The id of the first focused window.
pub open spec fn first_focused(wins: Seq<WindowInfo>) -> Option<u64>
    decreases wins.len(),
{
    if wins.len() == 0 {
        None
    } else if wins[0].is_focused {
        Some(wins[0].id)
    } else {
        first_focused(wins.drop_first())
    }
}

/// What one event does to the model, and whether the row must be redrawn.
pub open spec fn transition(s: StateModel, e: Event) -> (StateModel, bool) {
    match e {
        Event::WorkspacesChanged { workspaces: Some(ws) } => (StateModel { workspaces: ws@, ..s }, true),
        Event::WorkspaceActivated { id: Some(id), focused } => {
            let focus = match focused {
                Some(f) => f,
                None => true,
            };
            let out = activation_output(s.workspaces, id);
            (
                StateModel {
                    workspaces: Seq::new(
                        s.workspaces.len(),
                        |i: int| activated(s.workspaces[i], id, out, focus),
                    ),
                    ..s
                },
                true,
            )
        },
        Event::WindowsChanged { windows: Some(wins) } => (
            StateModel { windows: windows_map(wins@), focused: first_focused(wins@), ..s },
            true,
        ),
        Event::WindowOpenedOrChanged { window: Some(w) } => (
            StateModel {
                windows: s.windows.insert(w.id, w),
                focused: if w.is_focused {
                    Some(w.id)
                } else {
                    s.focused
                },
                ..s
            },
            true,
        ),
        Event::WindowClosed { id: Some(id) } => (
            StateModel {
                windows: s.windows.remove(id),
                focused: if s.focused == Some(id) {
                    None
                } else {
                    s.focused
                },
                ..s
            },
            true,
        ),
        Event::WindowFocusChanged { id } => (StateModel { focused: id, ..s }, true),
        _ => (s, false),
    }
}

// ───────────────────────── executable parts ─────────────────────────

/// Reads an event name.
pub fn event_kind(name: &str) -> (k: EventKind)
    ensures
        k == kind_of(name@),
{
    let n = chars_of(name);
    if chars_eq(&n, &chars_of("WorkspacesChanged")) {
        EventKind::WorkspacesChanged
    } else if chars_eq(&n, &chars_of("WorkspaceActivated")) {
        EventKind::WorkspaceActivated
    } else if chars_eq(&n, &chars_of("WindowsChanged")) {
        EventKind::WindowsChanged
    } else if chars_eq(&n, &chars_of("WindowOpenedOrChanged")) {
        EventKind::WindowOpenedOrChanged
    } else if chars_eq(&n, &chars_of("WindowClosed")) {
        EventKind::WindowClosed
    } else if chars_eq(&n, &chars_of("WindowFocusChanged")) {
        EventKind::WindowFocusChanged
    } else {
        EventKind::Other
    }
}

fn opt_string_eq(a: &Option<String>, b: &Option<String>) -> (r: bool)
    ensures
        r == (opt_view(*a) == opt_view(*b)),
{
    match (a, b) {
        (Some(x), Some(y)) => x.eq(y),
        (None, None) => true,
        _ => false,
    }
}

fn clone_opt_string(a: &Option<String>) -> (r: Option<String>)
    ensures
        opt_view(r) == opt_view(*a),
{
    match a {
        Some(x) => Some(x.clone()),
        None => None,
    }
}

proof fn lemma_first_with_id(ws: Seq<WorkspaceInfo>, id: u64)
    ensures
        0 <= first_with_id(ws, id) <= ws.len(),
        forall|j: int| 0 <= j < first_with_id(ws, id) ==> (#[trigger] ws[j]).id != id,
        first_with_id(ws, id) < ws.len() ==> ws[first_with_id(ws, id)].id == id,
    decreases ws.len(),
{
    if ws.len() > 0 && ws[0].id != id {
        lemma_first_with_id(ws.drop_first(), id);
        assert forall|j: int| 0 <= j < first_with_id(ws, id) implies (#[trigger] ws[j]).id != id by {
            if j > 0 {
                assert(ws[j] == ws.drop_first()[j - 1]);
            }
        }
    }
}

fn activation_output_exec(ws: &Vec<WorkspaceInfo>, id: u64) -> (r: Option<String>)
    ensures
        opt_view(r) == activation_output(ws@, id),
{
    let mut i: usize = 0;
    while i < ws.len() && ws[i].id != id
        invariant
            0 <= i <= ws.len(),
            forall|j: int| 0 <= j < i ==> (#[trigger] ws@[j]).id != id,
        decreases ws.len() - i,
    {
        i = i + 1;
    }
    proof {
        lemma_first_with_id(ws@, id);
        let f = first_with_id(ws@, id);
        if f < i {
            assert(ws@[f].id == id);
        } else if i < f {
            assert(ws@[i as int].id != id);
        }
    }
    if i < ws.len() {
        clone_opt_string(&ws[i].output)
    } else {
        None
    }
}

fn activate(state: &mut State, id: u64, focus: bool)
    ensures
        final(state).windows == old(state).windows,
        final(state).focused == old(state).focused,
        final(state).workspaces@ == Seq::new(
            old(state).workspaces@.len(),
            |i: int| activated(old(state).workspaces@[i], id, activation_output(old(state).workspaces@, id), focus),
        ),
{
    let out = activation_output_exec(&state.workspaces, id);
    let ghost out_v = activation_output(old(state).workspaces@, id);
    let ghost old_ws = old(state).workspaces@;
    let mut i: usize = 0;
    while i < state.workspaces.len()
        invariant
            0 <= i <= state.workspaces.len(),
            state.workspaces.len() == old_ws.len(),
            state.windows == old(state).windows,
            state.focused == old(state).focused,
            opt_view(out) == out_v,
            old_ws == old(state).workspaces@,
            out_v == activation_output(old_ws, id),
            forall|j: int| 0 <= j < i ==> #[trigger] state.workspaces@[j] == activated(old_ws[j], id, out_v, focus),
            forall|j: int| i <= j < old_ws.len() ==> #[trigger] state.workspaces@[j] == old_ws[j],
        decreases old_ws.len() - i,
    {
        let same_output = opt_string_eq(&state.workspaces[i].output, &out);
        let wid = state.workspaces[i].id;
        if same_output {
            state.workspaces[i].is_active = wid == id;
        }
        if focus {
            state.workspaces[i].is_focused = wid == id;
        }
        i = i + 1;
    }
    assert(state.workspaces@ =~= Seq::new(
        old_ws.len(),
        |i: int| activated(old_ws[i], id, out_v, focus),
    ));
}

proof fn lemma_first_focused_step(wins: Seq<WindowInfo>, i: int)
    requires
        0 <= i < wins.len(),
        forall|j: int| 0 <= j < i ==> !(#[trigger] wins[j]).is_focused,
    ensures
        first_focused(wins) == first_focused(wins.skip(i)),
    decreases i,
{
    if i > 0 {
        assert forall|j: int| 0 <= j < i - 1 implies !(#[trigger] wins.drop_first()[j]).is_focused by {
            assert(wins.drop_first()[j] == wins[j + 1]);
        }
        lemma_first_focused_step(wins.drop_first(), i - 1);
        assert(wins.drop_first().skip(i - 1) == wins.skip(i));
    } else {
        assert(wins.skip(0) == wins);
    }
}

fn first_focused_exec(wins: &Vec<WindowInfo>) -> (r: Option<u64>)
    ensures
        r == first_focused(wins@),
{
    let mut i: usize = 0;
    while i < wins.len()
        invariant
            0 <= i <= wins.len(),
            forall|j: int| 0 <= j < i ==> !(#[trigger] wins@[j]).is_focused,
        decreases wins.len() - i,
    {
        if wins[i].is_focused {
            proof {
                lemma_first_focused_step(wins@, i as int);
            }
            return Some(wins[i].id);
        }
        i = i + 1;
    }
    proof {
        if wins.len() > 0 {
            lemma_first_focused_step(wins@, wins.len() - 1);
            let last = wins@.skip(wins.len() - 1);
            assert(!last[0].is_focused);
            assert(last.drop_first().len() == 0);
            assert(first_focused(last) == first_focused(last.drop_first()));
        }
    }
    None
}

fn windows_map_exec(wins: Vec<WindowInfo>) -> (m: HashMap<u64, WindowInfo>)
    ensures
        m@ == windows_map(wins@),
{
    let ghost all = wins@;
    let mut m: HashMap<u64, WindowInfo> = HashMap::new();
    for w in it: wins.into_iter()
        invariant
            it.seq() == all,
            m@ == windows_map(all.take(it.index() as int)),
    {
        let ghost i = it.index();
        proof {
            assert(all.take(i + 1).drop_last() == all.take(i as int));
        }
        m.insert(w.id, w);
    }
    assert(all.take(all.len() as int) == all);
    m
}

/// Folds one event into `state`; returns whether the desktop row needs
/// re-rendering.
pub fn apply(state: &mut State, event: Event) -> (changed: bool)
    ensures
        final(state)@ == transition(old(state)@, event).0,
        changed == transition(old(state)@, event).1,
{
    match event {
        Event::WorkspacesChanged { workspaces: Some(ws) } => {
            state.workspaces = ws;
            true
        },
        Event::WorkspaceActivated { id: Some(id), focused } => {
            let focus = match focused {
                Some(f) => f,
                None => true,
            };
            activate(state, id, focus);
            true
        },
        Event::WindowsChanged { windows: Some(wins) } => {
            state.focused = first_focused_exec(&wins);
            state.windows = windows_map_exec(wins);
            true
        },
        Event::WindowOpenedOrChanged { window: Some(w) } => {
            if w.is_focused {
                state.focused = Some(w.id);
            }
            state.windows.insert(w.id, w);
            true
        },
        Event::WindowClosed { id: Some(id) } => {
            state.windows.remove(&id);
            if state.focused == Some(id) {
                state.focused = None;
            }
            true
        },
        Event::WindowFocusChanged { id } => {
            state.focused = id;
            true
        },
        _ => false,
    }
}


/// Some window sits on workspace `id`.
pub open spec fn occupied_by(windows: Map<u64, WindowInfo>, id: u64) -> bool {
    exists|k: u64| windows.contains_key(k) && (#[trigger] windows[k]).workspace_id == Some(id)
}

fn occupied(windows: &HashMap<u64, WindowInfo>, id: u64) -> (r: bool)
    ensures
        r == occupied_by(windows@, id),
{
    let ghost vals = vstd::std_specs::hash::spec_values_iter(windows).remaining();
    for w in it: windows.values()
        invariant
            it.seq() == vals,
            vals.unref().to_set() == windows@.values(),
            forall|j: int| 0 <= j < it.index() ==> (#[trigger] vals[j]).workspace_id != Some(id),
    {
        if w.workspace_id == Some(id) {
            proof {
                let v = *w;
                assert(vals.unref()[it.index() as int] == v);
                assert(vals.unref().to_set().contains(v));
                assert(windows@.values().contains(v));
                let k = choose|k: u64| windows@.contains_key(k) && windows@[k] == v;
                assert(windows@[k].workspace_id == Some(id));
            }
            return true;
        }
    }
    proof {
        assert forall|k: u64| windows@.contains_key(k) implies (#[trigger] windows@[k]).workspace_id != Some(id) by {
            let v = windows@[k];
            assert(windows@.values().contains(v));
            assert(vals.unref().to_set().contains(v));
            let j = choose|j: int| 0 <= j < vals.unref().len() && vals.unref()[j] == v;
            assert(vals[j].workspace_id != Some(id));
        }
    }
    false
}

/// One desktop pill: its label, the workspace index a click focuses, and
/// its style classes.
pub struct PillModel {
    pub text: String,
    pub target: usize,
    pub active: bool,
    pub occupied: bool,
    pub empty: bool,
    pub focused: bool,
}

/// The desktop row: one pill per workspace in index order, and the title of
/// the focused window.
pub struct RowModel {
    pub pills: Vec<PillModel>,
    pub title: String,
}

/// The label of a pill: active and occupied desktops carry their name (or
/// their index), empty ones none.
pub open spec fn pill_text(w: WorkspaceInfo, occupied: bool) -> Seq<char> {
    if w.is_active || occupied {
        match w.name {
            Some(n) => n@,
            None => decimal(w.idx as nat),
        }
    } else {
        seq![]
    }
}

/// `p` is the pill for workspace `w` given the windows `windows`.
pub open spec fn shows(p: PillModel, w: WorkspaceInfo, windows: Map<u64, WindowInfo>) -> bool {
    let occ = occupied_by(windows, w.id);
    &&& p.text@ == pill_text(w, occ)
    &&& p.target == w.idx
    &&& p.active == w.is_active
    &&& p.occupied == (occ && !w.is_active)
    &&& p.empty == (!occ && !w.is_active)
    &&& p.focused == w.is_focused
}

pub open spec fn idx_keys(ws: Seq<WorkspaceInfo>) -> Seq<u64> {
    Seq::new(ws.len(), |i: int| ws[i].idx as u64)
}

/// The focused window's title when it has a non-empty one, else `Desktop`.
pub open spec fn title_text(s: StateModel) -> Seq<char> {
    match s.focused {
        Some(id) => if s.windows.contains_key(id) {
            match s.windows[id].title {
                Some(t) => if t@.len() > 0 {
                    t@
                } else {
                    "Desktop"@
                },
                None => "Desktop"@,
            }
        } else {
            "Desktop"@
        },
        None => "Desktop"@,
    }
}

fn pill_for(w: &WorkspaceInfo, windows: &HashMap<u64, WindowInfo>) -> (p: PillModel)
    ensures
        shows(p, *w, windows@),
{
    let occ = occupied(windows, w.id);
    let active = w.is_active;
    let text = if active || occ {
        match &w.name {
            Some(n) => n.clone(),
            None => string_of(&decimal_chars(w.idx as u64)),
        }
    } else {
        String::new()
    };
    PillModel {
        text,
        target: w.idx,
        active,
        occupied: occ && !active,
        empty: !occ && !active,
        focused: w.is_focused,
    }
}

fn title_for(state: &State) -> (t: String)
    ensures
        t@ == title_text(state@),
{
    match state.focused {
        Some(id) => match state.windows.get(&id) {
            Some(w) => match &w.title {
                Some(t) => if !t.as_str().is_empty() {
                    t.clone()
                } else {
                    string_from("Desktop")
                },
                None => string_from("Desktop"),
            },
            None => string_from("Desktop"),
        },
        None => string_from("Desktop"),
    }
}

/// What the desktop row shows for `state`: the workspaces sorted by index
/// (stably), each with its label and classes, and the window title.
pub fn render(state: &State) -> (row: RowModel)
    ensures
        row.title@ == title_text(state@),
        row.pills.len() == state.workspaces.len(),
        forall|i: int, j: int| 0 <= i < j < row.pills.len() ==> row.pills@[i].target <= row.pills@[j].target,
        exists|order: Seq<usize>|
            #![trigger is_stable_order(order, idx_keys(state.workspaces@), false)]
            is_stable_order(order, idx_keys(state.workspaces@), false) && forall|i: int|
                0 <= i < row.pills.len() ==> shows(
                    #[trigger] row.pills@[i],
                    state.workspaces@[order[i] as int],
                    state.windows@,
                ),
{
    let mut keys: Vec<u64> = Vec::new();
    let mut i: usize = 0;
    while i < state.workspaces.len()
        invariant
            0 <= i <= state.workspaces.len(),
            keys@ == idx_keys(state.workspaces@).take(i as int),
        decreases state.workspaces.len() - i,
    {
        keys.push(state.workspaces[i].idx as u64);
        assert(keys@ =~= idx_keys(state.workspaces@).take(i + 1));
        i = i + 1;
    }
    assert(keys@ =~= idx_keys(state.workspaces@));
    let order = stable_order(&keys, false);
    let mut pills: Vec<PillModel> = Vec::new();
    let mut j: usize = 0;
    while j < order.len()
        invariant
            0 <= j <= order.len(),
            is_stable_order(order@, idx_keys(state.workspaces@), false),
            pills.len() == j,
            forall|m: int| 0 <= m < j ==> shows(
                #[trigger] pills@[m],
                state.workspaces@[order@[m] as int],
                state.windows@,
            ),
        decreases order.len() - j,
    {
        assert(order@[j as int] < idx_keys(state.workspaces@).len());
        let p = pill_for(&state.workspaces[order[j]], &state.windows);
        pills.push(p);
        j = j + 1;
    }
    proof {
        assert forall|a: int, b: int| 0 <= a < b < pills.len() implies pills@[a].target <= pills@[b].target by {
            assert(shows(pills@[a], state.workspaces@[order@[a] as int], state.windows@));
            assert(shows(pills@[b], state.workspaces@[order@[b] as int], state.windows@));
            assert(in_order(idx_keys(state.workspaces@)[order@[a] as int], idx_keys(state.workspaces@)[order@[b] as int], false));
        }
    }
    RowModel { pills, title: title_for(state) }
}

/// The model before any event: the workspaces and windows from one query
/// each (an absent answer counts as none), focus on the first focused window.
pub fn seed_state(workspaces: Option<Vec<WorkspaceInfo>>, windows: Option<Vec<WindowInfo>>) -> (s: State)
    ensures
        s@.workspaces == match workspaces {
            Some(ws) => ws@,
            None => Seq::<WorkspaceInfo>::empty(),
        },
        s@.windows == match windows {
            Some(wins) => windows_map(wins@),
            None => Map::<u64, WindowInfo>::empty(),
        },
        s@.focused == match windows {
            Some(wins) => first_focused(wins@),
            None => None,
        },
{
    let wins = match windows {
        Some(w) => w,
        None => Vec::new(),
    };
    let focused = first_focused_exec(&wins);
    let ghost all = wins@;
    let map = windows_map_exec(wins);
    proof {
        if all.len() == 0 {
            assert(windows_map(all) == Map::<u64, WindowInfo>::empty());
        }
    }
    State {
        workspaces: match workspaces {
            Some(ws) => ws,
            None => Vec::new(),
        },
        windows: map,
        focused,
    }
}

/// How a style class must change for a widget to carry it exactly when `on`.
#[derive(PartialEq, Eq, Structural, Clone, Copy, Debug)]
pub enum ClassChange {
    Add,
    Remove,
    Keep,
}

/// The change that makes a widget that has a class (`present`) carry it exactly when
/// `on`, touching the widget only when it must change.
pub fn class_change(present: bool, on: bool) -> (c: ClassChange)
    ensures
        c == (if on && !present {
            ClassChange::Add
        } else if !on && present {
            ClassChange::Remove
        } else {
            ClassChange::Keep
        }),
{
    if on {
        if !present {
            ClassChange::Add
        } else {
            ClassChange::Keep
        }
    } else if present {
        ClassChange::Remove
    } else {
        ClassChange::Keep
    }
}

// ───────────────────────── laws ─────────────────────────

/// A window that opens or changes is stored under its id, as reported.
pub proof fn law_opened_window_is_stored(s: StateModel, w: WindowInfo)
    ensures
        ({
            let t = transition(s, Event::WindowOpenedOrChanged { window: Some(w) }).0;
            t.windows.contains_key(w.id) && t.windows[w.id] == w
        }),
{
}

/// A closed window is gone from the model and no longer holds the focus.
pub proof fn law_closed_window_is_forgotten(s: StateModel, id: u64)
    ensures
        ({
            let t = transition(s, Event::WindowClosed { id: Some(id) }).0;
            !t.windows.contains_key(id) && t.focused != Some(id)
        }),
{
}

/// Activating a known workspace makes it the one active workspace of its
/// output, leaves the other outputs' workspaces as they were, and (unless the
/// event says the focus stays) makes it the one focused workspace.
pub proof fn law_activation(s: StateModel, id: u64, focused: Option<bool>)
    requires
        first_with_id(s.workspaces, id) < s.workspaces.len(),
    ensures
        ({
            let ws = s.workspaces;
            let t = first_with_id(ws, id);
            let after = transition(s, Event::WorkspaceActivated { id: Some(id), focused }).0.workspaces;
            &&& after.len() == ws.len()
            &&& after[t].is_active
            &&& forall|i: int|
                0 <= i < ws.len() && opt_view(#[trigger] ws[i].output) == opt_view(ws[t].output)
                    ==> after[i].is_active == (ws[i].id == id)
            &&& forall|i: int|
                0 <= i < ws.len() && opt_view(#[trigger] ws[i].output) != opt_view(ws[t].output)
                    ==> after[i].is_active == ws[i].is_active
            &&& focused != Some(false) ==> forall|i: int|
                0 <= i < ws.len() ==> (#[trigger] after[i]).is_focused == (ws[i].id == id)
            &&& forall|i: int|
                0 <= i < ws.len() ==> (#[trigger] after[i]).id == ws[i].id && after[i].idx == ws[i].idx
                    && after[i].name == ws[i].name && after[i].output == ws[i].output
        }),
{
    lemma_first_with_id(s.workspaces, id);
}

/// An event that does not call for a redraw leaves the model unchanged.
pub proof fn law_ignored_event_keeps_state(s: StateModel, e: Event)
    ensures
        !transition(s, e).1 ==> transition(s, e).0 == s,
{
}

proof fn lemma_windows_map_keys(wins: Seq<WindowInfo>)
    ensures
        forall|i: int| 0 <= i < wins.len() ==> windows_map(wins).contains_key((#[trigger] wins[i]).id),
        forall|k: u64| windows_map(wins).contains_key(k) ==> exists|i: int| 0 <= i < wins.len() && (#[trigger] wins[i]).id == k,
    decreases wins.len(),
{
    if wins.len() > 0 {
        let init = wins.drop_last();
        lemma_windows_map_keys(init);
        assert(windows_map(wins) == windows_map(init).insert(wins.last().id, wins.last()));
        assert forall|i: int| 0 <= i < wins.len() implies windows_map(wins).contains_key((#[trigger] wins[i]).id) by {
            if i < wins.len() - 1 {
                assert(wins[i] == init[i]);
            }
        }
        assert forall|k: u64| windows_map(wins).contains_key(k) implies exists|i: int| 0 <= i < wins.len() && (#[trigger] wins[i]).id == k by {
            if k != wins.last().id {
                assert(windows_map(wins) == windows_map(init).insert(wins.last().id, wins.last()));
                assert(windows_map(init).contains_key(k));
                let i = choose|i: int| 0 <= i < init.len() && (#[trigger] init[i]).id == k;
                assert(wins[i] == init[i]);
            } else {
                assert(wins[wins.len() - 1].id == k);
            }
        }
    }
}

/// A full window list replaces the model's windows: exactly the listed ids
/// are known, the last window listed is stored as listed, and the focus
/// moves to the first focused window (or nowhere).
pub proof fn law_window_list_replaces(s: StateModel, wins: Vec<WindowInfo>)
    ensures
        ({
            let t = transition(s, Event::WindowsChanged { windows: Some(wins) }).0;
            &&& forall|i: int| 0 <= i < wins@.len() ==> t.windows.contains_key((#[trigger] wins@[i]).id)
            &&& forall|k: u64| t.windows.contains_key(k) ==> exists|i: int| 0 <= i < wins@.len() && (#[trigger] wins@[i]).id == k
            &&& wins@.len() > 0 ==> t.windows[wins@.last().id] == wins@.last()
            &&& t.focused == first_focused(wins@)
            &&& t.workspaces == s.workspaces
        }),
{
    lemma_windows_map_keys(wins@);
}

/// Every pill carries exactly one of the `active`, `occupied` and `empty`
/// classes.
pub proof fn law_pill_has_one_state(p: PillModel, w: WorkspaceInfo, windows: Map<u64, WindowInfo>)
    requires
        shows(p, w, windows),
    ensures
        (p.active && !p.occupied && !p.empty) || (!p.active && p.occupied && !p.empty) || (!p.active
            && !p.occupied && p.empty),
{
}

/// A window that opens or changes takes the focus only when it reports being
/// focused: otherwise the focused window stays the one it was, and so does
/// the title the row shows (unless the changed window is the focused one).
pub proof fn law_focus_follows_reported_focus(s: StateModel, w: WindowInfo)
    ensures
        ({
            let t = transition(s, Event::WindowOpenedOrChanged { window: Some(w) }).0;
            &&& w.is_focused ==> t.focused == Some(w.id)
            &&& !w.is_focused ==> t.focused == s.focused
            &&& !w.is_focused && s.focused != Some(w.id) ==> title_text(t) == title_text(s)
            &&& t.workspaces == s.workspaces
        }),
{
    let t = transition(s, Event::WindowOpenedOrChanged { window: Some(w) }).0;
    if !w.is_focused && s.focused != Some(w.id) {
        if let Some(id) = s.focused {
            assert(t.windows.contains_key(id) == s.windows.contains_key(id));
            if s.windows.contains_key(id) {
                assert(t.windows[id] == s.windows[id]);
            }
        }
    }
}

/// A focus change moves the focus to the reported window (or nowhere) and
/// touches nothing else.
pub proof fn law_focus_change(s: StateModel, id: Option<u64>)
    ensures
        ({
            let (t, redraw) = transition(s, Event::WindowFocusChanged { id });
            t.focused == id && t.windows == s.windows && t.workspaces == s.workspaces && redraw
        }),
{
}

/// A pill's label: an active or occupied desktop shows its name, or, without
/// a name, its index written in decimal digits; a desktop that is neither
/// shows nothing.
pub proof fn law_pill_label(p: PillModel, w: WorkspaceInfo, windows: Map<u64, WindowInfo>)
    requires
        shows(p, w, windows),
    ensures
        !(w.is_active || occupied_by(windows, w.id)) ==> p.text@.len() == 0,
        (w.is_active || occupied_by(windows, w.id)) && w.name is Some ==> p.text@ == w.name->0@,
        (w.is_active || occupied_by(windows, w.id)) && w.name is None ==> {
            &&& p.text@.len() > 0
            &&& forall|i: int| 0 <= i < p.text@.len() ==> is_digit(#[trigger] p.text@[i])
            &&& decimal_value(p.text@) == w.idx
        },
{
    lemma_decimal_shape(w.idx as nat);
}

/// An occupied desktop is never labelled empty when it has no name: its
/// index shows instead.
pub proof fn law_occupied_pill_is_labelled(p: PillModel, w: WorkspaceInfo, windows: Map<u64, WindowInfo>)
    requires
        shows(p, w, windows),
        w.name is None,
    ensures
        (p.active || p.occupied) <==> p.text@.len() > 0,
{
    lemma_decimal_shape(w.idx as nat);
}

/// The row's title is the focused window's title when that window is known
/// and its title is not empty, and `Desktop` in every other case.
pub proof fn law_row_title(s: StateModel)
    ensures
        ({
            let shown = s.focused is Some && s.windows.contains_key(s.focused->0)
                && s.windows[s.focused->0].title is Some && s.windows[s.focused->0].title->0@.len() > 0;
            &&& shown ==> title_text(s) == s.windows[s.focused->0].title->0@
            &&& !shown ==> title_text(s) == "Desktop"@
        }),
{
}
}
