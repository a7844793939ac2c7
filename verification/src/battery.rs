//! Battery module: which battery to watch, and what the bar and the card
//! show for the contents of its `capacity` and `status` files.
use vstd::prelude::*;

use crate::text::{
    append_chars, chars_of, decimal, decimal_chars, eq_ignore_ascii_case, eq_ignore_ascii_case_chars,
    parse_unsigned, parse_unsigned_chars, strip_prefix, strip_prefix_chars, string_from, string_of,
    trim, trim_chars,
};

verus! {

/// The battery's state as read from its files.
pub struct Reading {
    pub capacity: u32,
    pub status: String,
    pub charging: bool,
}

/// What the bar shows for the battery.
pub struct BatteryView {
    pub icon: String,
    pub label: String,
    pub low: bool,
}

// ───────────────────────── specifications ─────────────────────────

/// `a` sorts strictly before `b` (lexicographic order of characters, which
/// is the byte order of their UTF-8 encoding).
pub open spec fn lex_lt(a: Seq<char>, b: Seq<char>) -> bool
    decreases a.len(),
{
    if a.len() == 0 {
        b.len() > 0
    } else if b.len() == 0 {
        false
    } else if a[0] != b[0] {
        a[0] < b[0]
    } else {
        lex_lt(a.drop_first(), b.drop_first())
    }
}

/// A `power_supply` entry that is a battery.
pub open spec fn is_battery(name: Seq<char>) -> bool {
    strip_prefix(name, "BAT"@) is Some
}

/// The capacity a `capacity` file's contents give (0 when absent or not a
/// number).
pub open spec fn capacity_spec(text: Option<Seq<char>>) -> u32 {
    match text {
        Some(t) => match parse_unsigned(trim(t), u32::MAX as nat) {
            Some(v) => v as u32,
            None => 0,
        },
        None => 0,
    }
}

/// The status a `status` file's contents give (empty when absent).
pub open spec fn status_spec(text: Option<Seq<char>>) -> Seq<char> {
    match text {
        Some(t) => trim(t),
        None => seq![],
    }
}

pub open spec fn level_of(capacity: u32) -> int {
    if capacity <= 10 {
        0
    } else if capacity <= 35 {
        1
    } else if capacity <= 70 {
        2
    } else {
        3
    }
}

/// The icon for a charge level.
pub open spec fn battery_icon_spec(capacity: u32, charging: bool) -> Seq<char> {
    let level = level_of(capacity);
    if charging {
        if level == 0 {
            "battery-empty-charging-symbolic"@
        } else if level == 1 {
            "battery-low-charging-symbolic"@
        } else if level == 2 {
            "battery-good-charging-symbolic"@
        } else {
            "battery-full-charging-symbolic"@
        }
    } else {
        if level == 0 {
            "battery-empty-symbolic"@
        } else if level == 1 {
            "battery-low-symbolic"@
        } else if level == 2 {
            "battery-good-symbolic"@
        } else {
            "battery-full-symbolic"@
        }
    }
}

// ───────────────────────── lemmas ─────────────────────────

proof fn lemma_lex_irreflexive(a: Seq<char>)
    ensures
        !lex_lt(a, a),
    decreases a.len(),
{
    if a.len() > 0 {
        lemma_lex_irreflexive(a.drop_first());
    }
}

proof fn lemma_lex_transitive(a: Seq<char>, b: Seq<char>, c: Seq<char>)
    requires
        lex_lt(a, b),
        lex_lt(b, c),
    ensures
        lex_lt(a, c),
    decreases a.len(),
{
    if a.len() > 0 && b.len() > 0 && c.len() > 0 && a[0] == b[0] && b[0] == c[0] {
        lemma_lex_transitive(a.drop_first(), b.drop_first(), c.drop_first());
    }
}

proof fn lemma_lex_total(a: Seq<char>, b: Seq<char>)
    ensures
        a == b || lex_lt(a, b) || lex_lt(b, a),
    decreases a.len(),
{
    if a.len() > 0 && b.len() > 0 && a[0] == b[0] {
        lemma_lex_total(a.drop_first(), b.drop_first());
        if a.drop_first() == b.drop_first() {
            assert(a =~= seq![a[0]] + a.drop_first());
            assert(b =~= seq![b[0]] + b.drop_first());
        }
    } else if a.len() == 0 && b.len() == 0 {
        assert(a =~= b);
    }
}

// ───────────────────────── executable parts ─────────────────────────

fn lex_lt_chars(a: &Vec<char>, b: &Vec<char>) -> (r: bool)
    ensures
        r == lex_lt(a@, b@),
{
    let mut i: usize = 0;
    assert(a@.skip(0) == a@ && b@.skip(0) == b@);
    while i < a.len() && i < b.len() && a[i] == b[i]
        invariant
            0 <= i <= a.len(),
            i <= b.len(),
            forall|j: int| 0 <= j < i ==> a@[j] == b@[j],
            lex_lt(a@, b@) == lex_lt(a@.skip(i as int), b@.skip(i as int)),
        decreases a.len() - i,
    {
        proof {
            let sa = a@.skip(i as int);
            let sb = b@.skip(i as int);
            assert(sa.drop_first() == a@.skip(i + 1));
            assert(sb.drop_first() == b@.skip(i + 1));
        }
        i = i + 1;
    }
    proof {
        let sa = a@.skip(i as int);
        let sb = b@.skip(i as int);
        if i < a.len() && i < b.len() {
            assert(sa[0] == a@[i as int] && sb[0] == b@[i as int]);
        }
    }
    if i == a.len() {
        i < b.len()
    } else if i == b.len() {
        false
    } else {
        a[i] < b[i]
    }
}

/// The battery to watch among the `power_supply` entry names: the first in
/// sorted order of those starting with `BAT`.
pub fn find_battery(names: &Vec<String>) -> (r: Option<usize>)
    ensures
        match r {
            None => forall|i: int| 0 <= i < names@.len() ==> !is_battery(#[trigger] names@[i]@),
            Some(b) => {
                &&& b < names@.len()
                &&& is_battery(names@[b as int]@)
                &&& forall|j: int| 0 <= j < b && is_battery(#[trigger] names@[j]@) ==> lex_lt(names@[b as int]@, names@[j]@)
                &&& forall|j: int| b < j < names@.len() && is_battery(#[trigger] names@[j]@) ==> !lex_lt(names@[j]@, names@[b as int]@)
            },
        },
{
    let prefix = chars_of("BAT");
    let mut best: Option<usize> = None;
    let mut best_chars: Vec<char> = Vec::new();
    let mut j: usize = 0;
    while j < names.len()
        invariant
            0 <= j <= names.len(),
            prefix@ == "BAT"@,
            match best {
                None => forall|i: int| 0 <= i < j ==> !is_battery(#[trigger] names@[i]@),
                Some(b) => {
                    &&& b < j
                    &&& best_chars@ == names@[b as int]@
                    &&& is_battery(names@[b as int]@)
                    &&& forall|k: int| 0 <= k < b && is_battery(#[trigger] names@[k]@) ==> lex_lt(names@[b as int]@, names@[k]@)
                    &&& forall|k: int| b < k < j && is_battery(#[trigger] names@[k]@) ==> !lex_lt(names@[k]@, names@[b as int]@)
                },
            },
        decreases names.len() - j,
    {
        let c = chars_of(names[j].as_str());
        let bat = match strip_prefix_chars(&c, &prefix) {
            Some(_) => true,
            None => false,
        };
        if bat {
            match best {
                None => {
                    best = Some(j);
                    best_chars = c;
                },
                Some(b) => {
                    if lex_lt_chars(&c, &best_chars) {
                        proof {
                            let nj = names@[j as int]@;
                            let nb = names@[b as int]@;
                            assert forall|k: int| 0 <= k < j && is_battery(#[trigger] names@[k]@) implies lex_lt(nj, names@[k]@) by {
                                let nk = names@[k]@;
                                if k < b {
                                    lemma_lex_transitive(nj, nb, nk);
                                } else if k > b {
                                    lemma_lex_total(nb, nk);
                                    if lex_lt(nb, nk) {
                                        lemma_lex_transitive(nj, nb, nk);
                                    }
                                }
                            }
                        }
                        best = Some(j);
                        best_chars = c;
                    }
                },
            }
        }
        j = j + 1;
    }
    best
}

/// The icon for a charge level.
pub fn battery_icon(capacity: u32, charging: bool) -> (r: &'static str)
    ensures
        r@ == battery_icon_spec(capacity, charging),
{
    let level: u8 = if capacity <= 10 {
        0
    } else if capacity <= 35 {
        1
    } else if capacity <= 70 {
        2
    } else {
        3
    };
    if charging {
        if level == 0 {
            "battery-empty-charging-symbolic"
        } else if level == 1 {
            "battery-low-charging-symbolic"
        } else if level == 2 {
            "battery-good-charging-symbolic"
        } else {
            "battery-full-charging-symbolic"
        }
    } else {
        if level == 0 {
            "battery-empty-symbolic"
        } else if level == 1 {
            "battery-low-symbolic"
        } else if level == 2 {
            "battery-good-symbolic"
        } else {
            "battery-full-symbolic"
        }
    }
}

/// The battery's state from the contents of its `capacity` and `status`
/// files (`None` where a file could not be read).
pub fn reading(capacity_file: Option<&str>, status_file: Option<&str>) -> (r: Reading)
    ensures
        r.capacity == capacity_spec(match capacity_file { Some(t) => Some(t@), None => None }),
        r.status@ == status_spec(match status_file { Some(t) => Some(t@), None => None }),
        r.charging == eq_ignore_ascii_case(r.status@, "charging"@),
{
    let capacity: u32 = match capacity_file {
        Some(t) => match parse_unsigned_chars(&trim_chars(&chars_of(t)), 4294967295) {
            Some(v) => v as u32,
            None => 0,
        },
        None => 0,
    };
    let status: Vec<char> = match status_file {
        Some(t) => trim_chars(&chars_of(t)),
        None => Vec::new(),
    };
    let charging = eq_ignore_ascii_case_chars(&status, &chars_of("charging"));
    Reading { capacity, status: string_of(&status), charging }
}

/// What the bar shows: icon, `NN%` label, and whether it is low (at most 15%
/// and not charging).
pub fn module_view(r: &Reading) -> (v: BatteryView)
    ensures
        v.icon@ == battery_icon_spec(r.capacity, r.charging),
        v.label@ == decimal(r.capacity as nat) + "%"@,
        v.low == (r.capacity <= 15 && !r.charging),
{
    let mut label = decimal_chars(r.capacity as u64);
    append_chars(&mut label, &chars_of("%"));
    BatteryView {
        icon: string_from(battery_icon(r.capacity, r.charging)),
        label: string_of(&label),
        low: r.capacity <= 15 && !r.charging,
    }
}

/// The card's status line: the status, or `Unknown` when there is none.
pub fn status_label(r: &Reading) -> (s: String)
    ensures
        s@ == (if r.status@.len() == 0 { "Unknown"@ } else { r.status@ }),
{
    if r.status.as_str().is_empty() {
        string_from("Unknown")
    } else {
        r.status.clone()
    }
}

/// The card's estimate line for a whole number of minutes:
/// `Full in Hh Mm` while charging, `Remaining Hh Mm` otherwise.
pub fn time_text(total_minutes: u64, charging: bool) -> (s: String)
    ensures
        s@ == (if charging { "Full in "@ } else { "Remaining "@ }) + decimal((total_minutes / 60) as nat) + "h "@
            + decimal((total_minutes % 60) as nat) + "m"@,
{
    let mut t = if charging {
        chars_of("Full in ")
    } else {
        chars_of("Remaining ")
    };
    append_chars(&mut t, &decimal_chars(total_minutes / 60));
    append_chars(&mut t, &chars_of("h "));
    append_chars(&mut t, &decimal_chars(total_minutes % 60));
    append_chars(&mut t, &chars_of("m"));
    string_of(&t)
}


/// A battery flagged low is discharging and shows the empty or low icon.
pub proof fn law_low_battery_icon(capacity: u32, charging: bool)
    ensures
        (capacity <= 15 && !charging) ==> (battery_icon_spec(capacity, charging) == "battery-empty-symbolic"@
            || battery_icon_spec(capacity, charging) == "battery-low-symbolic"@),
{
}

/// How full a battery icon draws the battery: empty, low, good, full.
pub open spec fn fullness(icon: Seq<char>) -> int {
    if icon == "battery-empty-charging-symbolic"@ || icon == "battery-empty-symbolic"@ {
        0
    } else if icon == "battery-low-charging-symbolic"@ || icon == "battery-low-symbolic"@ {
        1
    } else if icon == "battery-good-charging-symbolic"@ || icon == "battery-good-symbolic"@ {
        2
    } else {
        3
    }
}

/// A battery icon shows the charging bolt.
pub open spec fn shows_charging(icon: Seq<char>) -> bool {
    ||| icon == "battery-empty-charging-symbolic"@
    ||| icon == "battery-low-charging-symbolic"@
    ||| icon == "battery-good-charging-symbolic"@
    ||| icon == "battery-full-charging-symbolic"@
}

/// The battery icon shows the bolt exactly while charging, never draws a
/// fuller battery for a lower charge, and draws an empty battery at 0% and a
/// full one at 100%.
pub proof fn law_battery_icon(c1: u32, c2: u32, charging: bool)
    ensures
        shows_charging(battery_icon_spec(c1, charging)) == charging,
        c1 <= c2 ==> fullness(battery_icon_spec(c1, charging)) <= fullness(battery_icon_spec(c2, charging)),
        fullness(battery_icon_spec(0, charging)) == 0,
        fullness(battery_icon_spec(100, charging)) == 3,
{
    reveal_strlit("battery-empty-charging-symbolic");
    reveal_strlit("battery-low-charging-symbolic");
    reveal_strlit("battery-good-charging-symbolic");
    reveal_strlit("battery-full-charging-symbolic");
    reveal_strlit("battery-empty-symbolic");
    reveal_strlit("battery-low-symbolic");
    reveal_strlit("battery-good-symbolic");
    reveal_strlit("battery-full-symbolic");
    assert("battery-empty-charging-symbolic"@ != "battery-low-charging-symbolic"@) by { assert("battery-empty-charging-symbolic"@.len() != "battery-low-charging-symbolic"@.len()); }
    assert("battery-empty-charging-symbolic"@ != "battery-good-charging-symbolic"@) by { assert("battery-empty-charging-symbolic"@.len() != "battery-good-charging-symbolic"@.len()); }
    assert("battery-empty-charging-symbolic"@ != "battery-full-charging-symbolic"@) by { assert("battery-empty-charging-symbolic"@.len() != "battery-full-charging-symbolic"@.len()); }
    assert("battery-empty-charging-symbolic"@ != "battery-empty-symbolic"@) by { assert("battery-empty-charging-symbolic"@.len() != "battery-empty-symbolic"@.len()); }
    assert("battery-empty-charging-symbolic"@ != "battery-low-symbolic"@) by { assert("battery-empty-charging-symbolic"@.len() != "battery-low-symbolic"@.len()); }
    assert("battery-empty-charging-symbolic"@ != "battery-good-symbolic"@) by { assert("battery-empty-charging-symbolic"@.len() != "battery-good-symbolic"@.len()); }
    assert("battery-empty-charging-symbolic"@ != "battery-full-symbolic"@) by { assert("battery-empty-charging-symbolic"@.len() != "battery-full-symbolic"@.len()); }
    assert("battery-low-charging-symbolic"@ != "battery-good-charging-symbolic"@) by { assert("battery-low-charging-symbolic"@.len() != "battery-good-charging-symbolic"@.len()); }
    assert("battery-low-charging-symbolic"@ != "battery-full-charging-symbolic"@) by { assert("battery-low-charging-symbolic"@.len() != "battery-full-charging-symbolic"@.len()); }
    assert("battery-low-charging-symbolic"@ != "battery-empty-symbolic"@) by { assert("battery-low-charging-symbolic"@.len() != "battery-empty-symbolic"@.len()); }
    assert("battery-low-charging-symbolic"@ != "battery-low-symbolic"@) by { assert("battery-low-charging-symbolic"@.len() != "battery-low-symbolic"@.len()); }
    assert("battery-low-charging-symbolic"@ != "battery-good-symbolic"@) by { assert("battery-low-charging-symbolic"@.len() != "battery-good-symbolic"@.len()); }
    assert("battery-low-charging-symbolic"@ != "battery-full-symbolic"@) by { assert("battery-low-charging-symbolic"@.len() != "battery-full-symbolic"@.len()); }
    assert("battery-good-charging-symbolic"@ != "battery-full-charging-symbolic"@) by { assert("battery-good-charging-symbolic"@[8] != "battery-full-charging-symbolic"@[8]); }
    assert("battery-good-charging-symbolic"@ != "battery-empty-symbolic"@) by { assert("battery-good-charging-symbolic"@.len() != "battery-empty-symbolic"@.len()); }
    assert("battery-good-charging-symbolic"@ != "battery-low-symbolic"@) by { assert("battery-good-charging-symbolic"@.len() != "battery-low-symbolic"@.len()); }
    assert("battery-good-charging-symbolic"@ != "battery-good-symbolic"@) by { assert("battery-good-charging-symbolic"@.len() != "battery-good-symbolic"@.len()); }
    assert("battery-good-charging-symbolic"@ != "battery-full-symbolic"@) by { assert("battery-good-charging-symbolic"@.len() != "battery-full-symbolic"@.len()); }
    assert("battery-full-charging-symbolic"@ != "battery-empty-symbolic"@) by { assert("battery-full-charging-symbolic"@.len() != "battery-empty-symbolic"@.len()); }
    assert("battery-full-charging-symbolic"@ != "battery-low-symbolic"@) by { assert("battery-full-charging-symbolic"@.len() != "battery-low-symbolic"@.len()); }
    assert("battery-full-charging-symbolic"@ != "battery-good-symbolic"@) by { assert("battery-full-charging-symbolic"@.len() != "battery-good-symbolic"@.len()); }
    assert("battery-full-charging-symbolic"@ != "battery-full-symbolic"@) by { assert("battery-full-charging-symbolic"@.len() != "battery-full-symbolic"@.len()); }
    assert("battery-empty-symbolic"@ != "battery-low-symbolic"@) by { assert("battery-empty-symbolic"@.len() != "battery-low-symbolic"@.len()); }
    assert("battery-empty-symbolic"@ != "battery-good-symbolic"@) by { assert("battery-empty-symbolic"@.len() != "battery-good-symbolic"@.len()); }
    assert("battery-empty-symbolic"@ != "battery-full-symbolic"@) by { assert("battery-empty-symbolic"@.len() != "battery-full-symbolic"@.len()); }
    assert("battery-low-symbolic"@ != "battery-good-symbolic"@) by { assert("battery-low-symbolic"@.len() != "battery-good-symbolic"@.len()); }
    assert("battery-low-symbolic"@ != "battery-full-symbolic"@) by { assert("battery-low-symbolic"@.len() != "battery-full-symbolic"@.len()); }
    assert("battery-good-symbolic"@ != "battery-full-symbolic"@) by { assert("battery-good-symbolic"@[8] != "battery-full-symbolic"@[8]); }
}
}
