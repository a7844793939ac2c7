//! Volume module: the default sink's level and mute state and the output
//! devices as `pactl` reports them, and the level a scroll or slider asks for.
use vstd::prelude::*;

use crate::text::{
    append_chars, chars_eq, chars_of, contains, contains_chars, decimal, decimal_chars, first_index,
    lemma_first_index_unique, lines, lines_of, parse_unsigned, parse_unsigned_chars, split_whitespace,
    split_whitespace_chars, strip_prefix, strip_prefix_chars, strip_suffix, strip_suffix_chars,
    string_from, string_of, trim, trim_chars,
};

verus! {

/// How far one scroll step moves the volume, in percent.
pub const STEP: i32 = 5;

/// One output device in the card.
pub struct Sink {
    pub name: String,
    pub description: String,
    pub active: bool,
}

// ───────────────────────── specifications ─────────────────────────

/// The icon for a volume level.
pub open spec fn icon_name_spec(volume: u32, muted: bool) -> Seq<char> {
    if muted || volume == 0 {
        "audio-volume-muted-symbolic"@
    } else if volume < 33 {
        "audio-volume-low-symbolic"@
    } else if volume < 66 {
        "audio-volume-medium-symbolic"@
    } else {
        "audio-volume-high-symbolic"@
    }
}

/// The bar's label: `Muted`, or the level with a percent sign.
pub open spec fn label_spec(volume: u32, muted: bool) -> Seq<char> {
    if muted {
        "Muted"@
    } else {
        decimal(volume as nat) + "%"@
    }
}

/// The `(name, description)` pairs of `pactl list sinks`: each trimmed
/// `Description: ` line paired with the latest `Name: ` line not yet paired.
pub open spec fn sinks_from(ls: Seq<Seq<char>>, current: Option<Seq<char>>) -> Seq<(Seq<char>, Seq<char>)>
    decreases ls.len(),
{
    if ls.len() == 0 {
        seq![]
    } else {
        let line = trim(ls[0]);
        match strip_prefix(line, "Name: "@) {
            Some(n) => sinks_from(ls.drop_first(), Some(n)),
            None => match strip_prefix(line, "Description: "@) {
                Some(d) => match current {
                    Some(n) => seq![(n, d)] + sinks_from(ls.drop_first(), None),
                    None => sinks_from(ls.drop_first(), None),
                },
                None => sinks_from(ls.drop_first(), current),
            },
        }
    }
}

pub open spec fn sinks_spec(output: Seq<char>) -> Seq<(Seq<char>, Seq<char>)> {
    sinks_from(lines(output), None)
}

pub open spec fn ends_with_percent() -> spec_fn(Seq<char>) -> bool {
    |t: Seq<char>| strip_suffix(t, "%"@) is Some
}

/// The level `pactl get-sink-volume` reports: the number before the first
/// `%`-suffixed word, 0 if there is none or it does not read as a number.
pub open spec fn volume_spec(output: Seq<char>) -> u32 {
    let ws = split_whitespace(output);
    let i = first_index(ws, ends_with_percent());
    if 0 <= i < ws.len() {
        match strip_suffix(ws[i], "%"@) {
            Some(p) => match parse_unsigned(p, u32::MAX as nat) {
                Some(v) => v as u32,
                None => 0,
            },
            None => 0,
        }
    } else {
        0
    }
}

/// `percent` clamped to 0..=100.
pub open spec fn clamp_spec(p: int) -> int {
    if p < 0 {
        0
    } else if p > 100 {
        100
    } else {
        p
    }
}

/// `current as i32`: the level read back into a signed 32-bit integer.
pub open spec fn as_i32(current: u32) -> int {
    if current <= i32::MAX {
        current as int
    } else {
        current - 0x1_0000_0000
    }
}

/// The first word of each line that has one (`pactl list short sink-inputs`
/// ids).
pub open spec fn first_words(ls: Seq<Seq<char>>) -> Seq<Seq<char>>
    decreases ls.len(),
{
    if ls.len() == 0 {
        seq![]
    } else {
        let prev = first_words(ls.drop_last());
        let ws = split_whitespace(ls.last());
        if ws.len() > 0 {
            prev.push(ws[0])
        } else {
            prev
        }
    }
}

// ───────────────────────── executable parts ─────────────────────────

/// The icon for a volume level.
pub fn icon_name(volume: u32, muted: bool) -> (r: &'static str)
    ensures
        r@ == icon_name_spec(volume, muted),
{
    if muted || volume == 0 {
        "audio-volume-muted-symbolic"
    } else if volume < 33 {
        "audio-volume-low-symbolic"
    } else if volume < 66 {
        "audio-volume-medium-symbolic"
    } else {
        "audio-volume-high-symbolic"
    }
}

/// The icon of the card's mute button.
pub fn mute_icon(muted: bool) -> (r: &'static str)
    ensures
        r@ == (if muted { "audio-volume-muted-symbolic"@ } else { "audio-volume-high-symbolic"@ }),
{
    if muted {
        "audio-volume-muted-symbolic"
    } else {
        "audio-volume-high-symbolic"
    }
}

/// The bar's label for a volume level.
pub fn volume_label(volume: u32, muted: bool) -> (r: String)
    ensures
        r@ == label_spec(volume, muted),
{
    if muted {
        string_from("Muted")
    } else {
        let mut t = decimal_chars(volume as u64);
        append_chars(&mut t, &chars_of("%"));
        string_of(&t)
    }
}

/// The level in the output of `pactl get-sink-volume @DEFAULT_SINK@`.
pub fn parse_volume(output: &str) -> (v: u32)
    ensures
        v == volume_spec(output@),
{
    let ws = split_whitespace_chars(&chars_of(output));
    let pct = chars_of("%");
    let ghost wv = ws.deep_view();
    let mut i: usize = 0;
    while i < ws.len()
        invariant
            0 <= i <= ws.len(),
            wv == ws.deep_view(),
            wv == split_whitespace(output@),
            pct@ == "%"@,
            forall|j: int| 0 <= j < i ==> !ends_with_percent()(#[trigger] wv[j]),
        decreases ws.len() - i,
    {
        assert(wv[i as int] == ws@[i as int]@);
        match strip_suffix_chars(&ws[i], &pct) {
            Some(p) => {
                proof {
                    lemma_first_index_unique(wv, ends_with_percent(), i as int);
                    assert(p.deep_view() == p@);
                }
                return match parse_unsigned_chars(&p, 4294967295) {
                    Some(v) => v as u32,
                    None => 0,
                };
            },
            None => {},
        }
        i = i + 1;
    }
    proof {
        lemma_first_index_unique(wv, ends_with_percent(), ws.len() as int);
    }
    0
}

/// Whether `pactl get-sink-mute @DEFAULT_SINK@` reports the sink muted.
pub fn is_muted(output: &str) -> (r: bool)
    ensures
        r == contains(output@, "yes"@),
{
    contains_chars(&chars_of(output), &chars_of("yes"))
}

/// `percent` clamped to 0..=100.
pub fn clamp_percent(percent: i32) -> (r: i32)
    ensures
        r == clamp_spec(percent as int),
{
    if percent < 0 {
        0
    } else if percent > 100 {
        100
    } else {
        percent
    }
}

/// The `pactl set-sink-volume` argument for a requested level: the level
/// clamped to 0..=100, with a percent sign.
pub fn volume_argument(percent: i32) -> (r: String)
    ensures
        r@ == decimal(clamp_spec(percent as int) as nat) + "%"@,
{
    let p = clamp_percent(percent);
    let mut t = decimal_chars(p as u64);
    append_chars(&mut t, &chars_of("%"));
    string_of(&t)
}

/// The level a scroll by `delta` asks for from level `current`: the sum,
/// clamped to 0..=100.
pub fn adjusted_volume(current: u32, delta: i32) -> (r: i32)
    requires
        i32::MIN <= as_i32(current) + delta <= i32::MAX,
    ensures
        r == clamp_spec(as_i32(current) + delta),
{
    let c: i32 = if current <= 2147483647 {
        current as i32
    } else {
        let below: u32 = current - 2147483648;
        (below as i32) - 2147483647 - 1
    };
    clamp_percent(c + delta)
}

/// The level change of one scroll step: up raises, down lowers.
pub fn scroll_delta(up: bool) -> (r: i32)
    ensures
        r == (if up { STEP as int } else { -STEP }),
{
    if up {
        STEP
    } else {
        -STEP
    }
}

/// Lists `(sink_name, description)` pairs from the output of
/// `pactl list sinks`.
pub fn list_sinks(output: &str) -> (r: Vec<(String, String)>)
    ensures
        r@.len() == sinks_spec(output@).len(),
        forall|i: int| 0 <= i < r@.len() ==> (#[trigger] r@[i]).0@ == sinks_spec(output@)[i].0
            && r@[i].1@ == sinks_spec(output@)[i].1,
{
    let ls = lines_of(&chars_of(output));
    let name_p = chars_of("Name: ");
    let desc_p = chars_of("Description: ");
    let ghost lv = ls.deep_view();
    let ghost want = sinks_spec(output@);
    let mut out: Vec<(String, String)> = Vec::new();
    let mut current: Option<Vec<char>> = None;
    let mut i: usize = 0;
    assert(lv.skip(0) == lv);
    while i < ls.len()
        invariant
            0 <= i <= ls.len(),
            lv == ls.deep_view(),
            lv == lines(output@),
            want == sinks_spec(output@),
            name_p@ == "Name: "@,
            desc_p@ == "Description: "@,
            out@.len() + sinks_from(lv.skip(i as int), current.deep_view()).len() == want.len(),
            forall|j: int| 0 <= j < out@.len() ==> (#[trigger] out@[j]).0@ == want[j].0 && out@[j].1@ == want[j].1,
            forall|j: int| 0 <= j < sinks_from(lv.skip(i as int), current.deep_view()).len() ==>
                #[trigger] sinks_from(lv.skip(i as int), current.deep_view())[j] == want[out@.len() + j],
        decreases ls.len() - i,
    {
        let ghost rest = lv.skip(i as int);
        assert(rest[0] == ls@[i as int]@);
        assert(rest.drop_first() == lv.skip(i + 1));
        let line = trim_chars(&ls[i]);
        match strip_prefix_chars(&line, &name_p) {
            Some(n) => {
                assert(n.deep_view() == n@);
                current = Some(n);
                assert(current.deep_view() == Some(n@));
            },
            None => match strip_prefix_chars(&line, &desc_p) {
                Some(d) => {
                    assert(d.deep_view() == d@);
                    match current {
                        Some(n) => {
                            assert(n.deep_view() == n@);
                            let ghost tail = sinks_from(lv.skip(i + 1), None);
                            assert(sinks_from(rest, Some(n@)) == seq![(n@, d@)] + tail);
                            assert(sinks_from(rest, Some(n@))[0] == (n@, d@));
                            assert forall|j: int| 0 <= j < tail.len() implies #[trigger] tail[j] == want[out@.len() + 1 + j] by {
                                assert(sinks_from(rest, Some(n@))[j + 1] == tail[j]);
                            }
                            out.push((string_of(&n), string_of(&d)));
                        },
                        None => {},
                    }
                    current = None;
                },
                None => {},
            },
        }
        i = i + 1;
    }
    out
}

/// The output devices for the card, from the output of
/// `pactl get-default-sink` and of `pactl list sinks`: the default one
/// marked active.
pub fn sink_rows(default_output: &str, list_output: &str) -> (r: Vec<Sink>)
    ensures
        r@.len() == sinks_spec(list_output@).len(),
        forall|i: int| 0 <= i < r@.len() ==> (#[trigger] r@[i]).name@ == sinks_spec(list_output@)[i].0
            && r@[i].description@ == sinks_spec(list_output@)[i].1 && r@[i].active == (
            sinks_spec(list_output@)[i].0 == trim(default_output@)),
{
    let default = trim_chars(&chars_of(default_output));
    let all = list_sinks(list_output);
    let mut rows: Vec<Sink> = Vec::new();
    let mut i: usize = 0;
    while i < all.len()
        invariant
            0 <= i <= all.len(),
            default@ == trim(default_output@),
            all@.len() == sinks_spec(list_output@).len(),
            forall|j: int| 0 <= j < all@.len() ==> (#[trigger] all@[j]).0@ == sinks_spec(list_output@)[j].0
                && all@[j].1@ == sinks_spec(list_output@)[j].1,
            rows.len() == i,
            forall|j: int| 0 <= j < i ==> (#[trigger] rows@[j]).name@ == sinks_spec(list_output@)[j].0
                && rows@[j].description@ == sinks_spec(list_output@)[j].1 && rows@[j].active == (
                sinks_spec(list_output@)[j].0 == trim(default_output@)),
        decreases all.len() - i,
    {
        let name_chars = chars_of(all[i].0.as_str());
        let active = chars_eq(&name_chars, &default);
        rows.push(Sink { name: all[i].0.clone(), description: all[i].1.clone(), active });
        i = i + 1;
    }
    rows
}

/// The ids in the output of `pactl list short sink-inputs`: the first word
/// of each line that has one.
pub fn sink_input_ids(output: &str) -> (r: Vec<String>)
    ensures
        r@.len() == first_words(lines(output@)).len(),
        forall|i: int| 0 <= i < r@.len() ==> (#[trigger] r@[i])@ == first_words(lines(output@))[i],
{
    let ls = lines_of(&chars_of(output));
    let ghost lv = ls.deep_view();
    let mut out: Vec<String> = Vec::new();
    let mut i: usize = 0;
    while i < ls.len()
        invariant
            0 <= i <= ls.len(),
            lv == ls.deep_view(),
            lv == lines(output@),
            out@.len() == first_words(lv.take(i as int)).len(),
            forall|j: int| 0 <= j < out@.len() ==> (#[trigger] out@[j])@ == first_words(lv.take(i as int))[j],
        decreases ls.len() - i,
    {
        assert(lv[i as int] == ls@[i as int]@);
        assert(lv.take(i + 1).drop_last() == lv.take(i as int));
        assert(lv.take(i + 1).last() == lv[i as int]);
        let ws = split_whitespace_chars(&ls[i]);
        if ws.len() > 0 {
            assert(ws.deep_view()[0] == ws@[0]@);
            out.push(string_of(&ws[0]));
        }
        i = i + 1;
    }
    assert(lv.take(ls.len() as int) == lv);
    out
}


// ───────────────────────── laws ─────────────────────────

proof fn lemma_single_word(w: Seq<char>)
    requires
        w.len() > 0,
        forall|i: int| 0 <= i < w.len() ==> !crate::text::is_whitespace(#[trigger] w[i]),
    ensures
        split_whitespace(w) == seq![w],
{
    crate::text::lemma_first_match_unique(w, crate::text::ws_pred(), w.len() as int);
    assert(w.take(w.len() as int) == w);
    assert(w.skip(w.len() as int).len() == 0);
    assert(!crate::text::is_whitespace(w[0]));
    assert(split_whitespace(w.skip(w.len() as int)) == Seq::<Seq<char>>::empty());
    assert(split_whitespace(w) == seq![w.take(w.len() as int)] + split_whitespace(w.skip(w.len() as int)));
}

/// A level written as the bar writes it (digits and a percent sign) reads
/// back as that level: what `volume_label` shows and what
/// `volume_argument` asks `pactl` for are understood by `parse_volume`.
pub proof fn law_level_reads_back(v: u32)
    ensures
        volume_spec(label_spec(v, false)) == v,
        volume_spec(decimal(v as nat) + "%"@) == v,
{
    reveal_strlit("%");
    let d = decimal(v as nat);
    let w = d + "%"@;
    crate::text::lemma_parse_decimal_roundtrip(v as nat, u32::MAX as nat);
    crate::text::lemma_decimal_shape(v as nat);
    assert forall|i: int| 0 <= i < w.len() implies !crate::text::is_whitespace(#[trigger] w[i]) by {
        if i < d.len() {
            assert(w[i] == d[i]);
            assert(crate::text::is_digit(d[i]));
        }
    }
    lemma_single_word(w);
    assert(w.skip(w.len() - 1) == "%"@);
    assert(w.take(w.len() - 1) == d);
    assert(strip_suffix(w, "%"@) == Some(d));
    crate::text::lemma_first_index_unique(seq![w], ends_with_percent(), 0);
}

/// A requested level always lies in 0..=100, and a larger request never
/// gives a lower level.
pub proof fn law_clamp(a: int, b: int)
    ensures
        0 <= clamp_spec(a) <= 100,
        a <= b ==> clamp_spec(a) <= clamp_spec(b),
        0 <= a <= 100 ==> clamp_spec(a) == a,
{
}

/// How loud an icon says the sink is: muted, low, medium, high.
pub open spec fn loudness(icon: Seq<char>) -> int {
    if icon == "audio-volume-muted-symbolic"@ {
        0
    } else if icon == "audio-volume-low-symbolic"@ {
        1
    } else if icon == "audio-volume-medium-symbolic"@ {
        2
    } else {
        3
    }
}

/// The volume icon follows the level: a muted sink or a zero level shows
/// the muted icon, any other level never does, and a higher level never
/// shows a quieter icon.
pub proof fn law_volume_icon(v1: u32, v2: u32, muted: bool)
    ensures
        icon_name_spec(v1, true) == "audio-volume-muted-symbolic"@,
        icon_name_spec(0, muted) == "audio-volume-muted-symbolic"@,
        v1 > 0 ==> icon_name_spec(v1, false) != "audio-volume-muted-symbolic"@,
        v1 <= v2 ==> loudness(icon_name_spec(v1, false)) <= loudness(icon_name_spec(v2, false)),
        v1 <= 100 && v1 >= 66 ==> loudness(icon_name_spec(v1, false)) == 3,
{
    reveal_strlit("audio-volume-muted-symbolic");
    reveal_strlit("audio-volume-low-symbolic");
    reveal_strlit("audio-volume-medium-symbolic");
    reveal_strlit("audio-volume-high-symbolic");
    assert("audio-volume-muted-symbolic"@ != "audio-volume-low-symbolic"@) by { assert("audio-volume-muted-symbolic"@.len() != "audio-volume-low-symbolic"@.len()); }
    assert("audio-volume-muted-symbolic"@ != "audio-volume-medium-symbolic"@) by { assert("audio-volume-muted-symbolic"@.len() != "audio-volume-medium-symbolic"@.len()); }
    assert("audio-volume-muted-symbolic"@ != "audio-volume-high-symbolic"@) by { assert("audio-volume-muted-symbolic"@.len() != "audio-volume-high-symbolic"@.len()); }
    assert("audio-volume-low-symbolic"@ != "audio-volume-medium-symbolic"@) by { assert("audio-volume-low-symbolic"@.len() != "audio-volume-medium-symbolic"@.len()); }
    assert("audio-volume-low-symbolic"@ != "audio-volume-high-symbolic"@) by { assert("audio-volume-low-symbolic"@.len() != "audio-volume-high-symbolic"@.len()); }
    assert("audio-volume-medium-symbolic"@ != "audio-volume-high-symbolic"@) by { assert("audio-volume-medium-symbolic"@.len() != "audio-volume-high-symbolic"@.len()); }
}

/// The bar's label says `Muted` exactly when the sink is muted; otherwise
/// it ends in a percent sign after the level's digits.
pub proof fn law_volume_label(v: u32, muted: bool)
    ensures
        muted ==> label_spec(v, muted) == "Muted"@,
        !muted ==> label_spec(v, muted).last() == '%' && label_spec(v, muted) != "Muted"@,
{
    reveal_strlit("Muted");
    reveal_strlit("%");
    if !muted {
        crate::text::lemma_decimal_shape(v as nat);
        let l = label_spec(v, muted);
        assert(l.last() == '%');
        assert("Muted"@.last() == 'd');
    }
}

/// A scroll up never lowers the level and a scroll down never raises it,
/// within the 0..=100 range the bar keeps.
pub proof fn law_scroll_direction(current: u32)
    requires
        current <= 100,
    ensures
        clamp_spec(as_i32(current) + STEP) >= current,
        clamp_spec(as_i32(current) - STEP) <= current,
        current < 100 ==> clamp_spec(as_i32(current) + STEP) > current,
        current > 0 ==> clamp_spec(as_i32(current) - STEP) < current,
{
}
}
