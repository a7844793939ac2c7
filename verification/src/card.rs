//! The drop-down card: where it opens under the icon that was clicked.
use vstd::prelude::*;

verus! {

/// Gap between the bar pill and the card, and the card's least distance
/// from the screen edges (logical px).
pub const GAP: i32 = 6;

/// Output width used when niri cannot be asked (logical px).
pub const FALLBACK_WIDTH: i32 = 1536;

/// Card width used when the card's content has no natural width yet.
pub const DEFAULT_CARD_WIDTH: i32 = 248;

/// What a click on a card's trigger does.
#[derive(PartialEq, Eq, Structural, Clone, Copy, Debug)]
pub enum CardAction {
    /// The card is open: slide it away.
    Hide,
    /// The card is closed: place it, refresh it, show it.
    Open,
}

/// Where the clicked icon is: the geometry of the bar window holding it and
/// its place inside that window (logical px).
#[derive(Clone, Copy)]
pub struct TriggerGeometry {
    /// Width of the output.
    pub output_width: i32,
    /// Width of the bar window.
    pub window_width: i32,
    pub anchored_left: bool,
    pub anchored_right: bool,
    pub margin_left: i32,
    pub margin_right: i32,
    pub margin_top: i32,
    /// Offset of the icon inside the window.
    pub x: i32,
    pub y: i32,
    /// Size of the icon.
    pub width: i32,
    pub height: i32,
    /// The card content's natural width, if measured.
    pub card_width: Option<i32>,
}

/// `a / b` rounded toward zero, as Rust's integer division.
pub open spec fn div_trunc(a: int, b: int) -> int {
    if a >= 0 {
        a / b
    } else {
        -((-a) / b)
    }
}

/// The left edge of the bar window on the output: from its left margin,
/// from its right margin, or centred when it has neither anchor.
pub open spec fn window_left(g: TriggerGeometry) -> int {
    if g.anchored_left {
        g.margin_left as int
    } else if g.anchored_right {
        g.output_width - g.margin_right - g.window_width
    } else {
        div_trunc(g.output_width - g.window_width, 2)
    }
}

pub open spec fn card_width_spec(g: TriggerGeometry) -> int {
    match g.card_width {
        Some(w) => if w > 0 {
            w as int
        } else {
            DEFAULT_CARD_WIDTH as int
        },
        None => DEFAULT_CARD_WIDTH as int,
    }
}

pub open spec fn trigger_center(g: TriggerGeometry) -> int {
    window_left(g) + g.x + div_trunc(g.width as int, 2)
}

pub open spec fn trigger_bottom(g: TriggerGeometry) -> int {
    g.margin_top + g.y + g.height
}

/// The largest left margin that keeps the card on screen (never below `GAP`).
pub open spec fn max_left(g: TriggerGeometry) -> int {
    let m = g.output_width - card_width_spec(g) - GAP;
    if m > GAP {
        m
    } else {
        GAP as int
    }
}

pub open spec fn clamp_int(v: int, lo: int, hi: int) -> int {
    if v < lo {
        lo
    } else if v > hi {
        hi
    } else {
        v
    }
}

/// The card's left margin: centred under the icon, kept on screen.
pub open spec fn left_margin(g: TriggerGeometry) -> int {
    clamp_int(trigger_center(g) - div_trunc(card_width_spec(g), 2), GAP as int, max_left(g))
}

/// The card's top margin: `GAP` below the icon, never above the screen.
pub open spec fn top_margin(g: TriggerGeometry) -> int {
    let t = trigger_bottom(g) + GAP;
    if t > 0 {
        t
    } else {
        0
    }
}

pub open spec fn in_i32(v: int) -> bool {
    i32::MIN <= v <= i32::MAX
}

/// Every intermediate sum of the placement fits in an `i32`.
pub open spec fn fits(g: TriggerGeometry) -> bool {
    &&& (!g.anchored_left && g.anchored_right) ==> in_i32(g.output_width - g.margin_right) && in_i32(
        g.output_width - g.margin_right - g.window_width,
    )
    &&& (!g.anchored_left && !g.anchored_right) ==> in_i32(g.output_width - g.window_width)
    &&& in_i32(window_left(g) + g.x)
    &&& in_i32(trigger_center(g))
    &&& in_i32(g.margin_top + g.y)
    &&& in_i32(trigger_bottom(g))
    &&& in_i32(trigger_bottom(g) + GAP)
    &&& in_i32(g.output_width - card_width_spec(g))
    &&& in_i32(g.output_width - card_width_spec(g) - GAP)
    &&& in_i32(trigger_center(g) - div_trunc(card_width_spec(g), 2))
}

fn half(a: i32) -> (r: i32)
    ensures
        r == div_trunc(a as int, 2),
{
    if a >= 0 {
        a / 2
    } else if a == i32::MIN {
        -1073741824
    } else {
        -((-a) / 2)
    }
}

fn add_checked(a: i32, b: i32) -> (r: Option<i32>)
    ensures
        r == (if in_i32(a + b) { Some((a + b) as i32) } else { None::<i32> }),
{
    a.checked_add(b)
}

fn sub_checked(a: i32, b: i32) -> (r: Option<i32>)
    ensures
        r == (if in_i32(a - b) { Some((a - b) as i32) } else { None::<i32> }),
{
    a.checked_sub(b)
}

/// The output width to place cards on: what niri reports when it is a
/// positive width, else the fallback.
pub fn output_width(queried: Option<i32>) -> (w: i32)
    ensures
        w == (match queried {
            Some(q) => if q > 0 {
                q
            } else {
                FALLBACK_WIDTH
            },
            None => FALLBACK_WIDTH,
        }),
{
    match queried {
        Some(q) => if q > 0 {
            q
        } else {
            FALLBACK_WIDTH
        },
        None => FALLBACK_WIDTH,
    }
}

/// What a click on the trigger does, given whether the card is shown.
pub fn toggle_action(visible: bool) -> (a: CardAction)
    ensures
        a == (if visible { CardAction::Hide } else { CardAction::Open }),
{
    if visible {
        CardAction::Hide
    } else {
        CardAction::Open
    }
}

fn card_width(g: &TriggerGeometry) -> (w: i32)
    ensures
        w == card_width_spec(*g),
{
    match g.card_width {
        Some(w) => if w > 0 {
            w
        } else {
            DEFAULT_CARD_WIDTH
        },
        None => DEFAULT_CARD_WIDTH,
    }
}

/// The card's `(left, top)` margins, or `None` when a sum on the way
/// overflows an `i32`.
pub fn card_margins(g: &TriggerGeometry) -> (r: Option<(i32, i32)>)
    ensures
        match r {
            Some((l, t)) => fits(*g) && l == left_margin(*g) && t == top_margin(*g),
            None => !fits(*g),
        },
{
    let left: i32 = if g.anchored_left {
        g.margin_left
    } else if g.anchored_right {
        let a = sub_checked(g.output_width, g.margin_right)?;
        sub_checked(a, g.window_width)?
    } else {
        half(sub_checked(g.output_width, g.window_width)?)
    };
    let lx = add_checked(left, g.x)?;
    let center = add_checked(lx, half(g.width))?;
    let ty = add_checked(g.margin_top, g.y)?;
    let bottom = add_checked(ty, g.height)?;
    let top_raw = add_checked(bottom, GAP)?;
    let cw = card_width(g);
    let wc = sub_checked(g.output_width, cw)?;
    let m = sub_checked(wc, GAP)?;
    let start = sub_checked(center, half(cw))?;
    let hi = if m > GAP {
        m
    } else {
        GAP
    };
    let l = if start < GAP {
        GAP
    } else if start > hi {
        hi
    } else {
        start
    };
    let t = if top_raw > 0 {
        top_raw
    } else {
        0
    };
    Some((l, t))
}

/// The card always stays on screen horizontally: its left margin is at
/// least `GAP` and, when the output is wide enough, leaves `GAP` to the
/// right edge.
pub proof fn law_card_stays_on_screen(g: TriggerGeometry)
    ensures
        left_margin(g) >= GAP,
        left_margin(g) <= max_left(g),
        g.output_width - card_width_spec(g) - GAP >= GAP ==> left_margin(g) + card_width_spec(g) + GAP
            <= g.output_width,
        top_margin(g) >= 0,
{
}


/// Where there is room, the card is centred under its trigger, and it always
/// opens `GAP` below the trigger's bottom edge (or at the top of the screen).
pub proof fn law_card_under_trigger(g: TriggerGeometry)
    ensures
        GAP <= trigger_center(g) - div_trunc(card_width_spec(g), 2) <= max_left(g) ==> left_margin(g)
            == trigger_center(g) - div_trunc(card_width_spec(g), 2),
        top_margin(g) >= trigger_bottom(g) + GAP,
        trigger_bottom(g) + GAP >= 0 ==> top_margin(g) == trigger_bottom(g) + GAP,
{
}
}
