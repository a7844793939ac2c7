//! Bluetooth module: power state and devices as `bluetoothctl` reports them,
//! read into the bar's label and the card's device list.
use vstd::prelude::*;

use crate::text::{
    append_chars, chars_eq, chars_of, eq_char, first_index, first_match, join, join_chars,
    lemma_first_index_unique, lines, lines_of, find_char_from, copy_range, strip_prefix,
    strip_prefix_chars, string_from, string_of, trim, trim_chars,
};

verus! {

/// What the bar shows for Bluetooth.
pub struct Summary {
    pub icon: String,
    pub label: String,
}

/// One paired device in the card.
pub struct Device {
    pub mac: String,
    pub name: String,
    pub connected: bool,
}

/// The Bluetooth card: power state, status line and paired devices.
pub struct BluetoothCard {
    pub powered: bool,
    pub status: String,
    pub devices: Vec<Device>,
}

/// A device as plain values: (mac, name).
pub type Pair = (Seq<char>, Seq<char>);

// ───────────────────────── specifications ─────────────────────────

/// A `bluetoothctl show` line saying the adapter is on.
pub open spec fn powered_line(line: Seq<char>) -> bool {
    trim(line) == "Powered: yes"@
}

/// `bluetoothctl show` reports the adapter powered.
pub open spec fn powered_spec(show: Seq<char>) -> bool {
    exists|i: int| 0 <= i < lines(show).len() && powered_line(#[trigger] lines(show)[i])
}

/// A `Device AA:BB:CC:DD:EE:FF Name` line as `(mac, name)`.
pub open spec fn parse_device(line: Seq<char>) -> Option<Pair> {
    match strip_prefix(line, "Device "@) {
        Some(rest) => {
            let i = first_match(rest, eq_char(' '));
            if i < rest.len() {
                Some((rest.take(i), rest.skip(i + 1)))
            } else {
                None
            }
        },
        None => None,
    }
}

/// The devices the lines `ls` name, in order.
pub open spec fn device_list(ls: Seq<Seq<char>>) -> Seq<Pair>
    decreases ls.len(),
{
    if ls.len() == 0 {
        seq![]
    } else {
        let prev = device_list(ls.drop_last());
        match parse_device(ls.last()) {
            Some(d) => prev.push(d),
            None => prev,
        }
    }
}

pub open spec fn names_a_device() -> spec_fn(Seq<char>) -> bool {
    |l: Seq<char>| parse_device(l) is Some
}

/// The bar's `(icon, label)`: off, the first connected device's name, or on.
pub open spec fn summary_spec(powered: bool, connected: Seq<char>) -> (Seq<char>, Seq<char>) {
    if !powered {
        ("bluetooth-disabled-symbolic"@, "Off"@)
    } else {
        let ls = lines(connected);
        let i = first_index(ls, names_a_device());
        if 0 <= i < ls.len() {
            match parse_device(ls[i]) {
                Some(d) => ("bluetooth-active-symbolic"@, d.1),
                None => ("bluetooth-active-symbolic"@, "On"@),
            }
        } else {
            ("bluetooth-active-symbolic"@, "On"@)
        }
    }
}

pub open spec fn macs(ds: Seq<Pair>) -> Seq<Seq<char>> {
    Seq::new(ds.len(), |i: int| ds[i].0)
}

/// The names of the paired devices whose address is connected, in order.
pub open spec fn connected_names(paired: Seq<Pair>, connected: Seq<Seq<char>>) -> Seq<Seq<char>>
    decreases paired.len(),
{
    if paired.len() == 0 {
        seq![]
    } else {
        let prev = connected_names(paired.drop_last(), connected);
        if connected.contains(paired.last().0) {
            prev.push(paired.last().1)
        } else {
            prev
        }
    }
}

/// The card's status line.
pub open spec fn card_status(names: Seq<Seq<char>>) -> Seq<char> {
    if names.len() == 0 {
        "No devices connected"@
    } else {
        "Connected: "@ + join(names, ", "@)
    }
}

// ───────────────────────── executable parts ─────────────────────────

fn parse_device_chars(line: &Vec<char>, prefix: &Vec<char>) -> (r: Option<(Vec<char>, Vec<char>)>)
    requires
        prefix@ == "Device "@,
    ensures
        match r {
            Some((m, n)) => parse_device(line@) == Some((m@, n@)),
            None => parse_device(line@) is None,
        },
{
    match strip_prefix_chars(line, prefix) {
        Some(rest) => {
            assert(rest.deep_view() == rest@);
            let i = find_char_from(&rest, 0, ' ');
            assert(rest@.skip(0) == rest@);
            if i < rest.len() {
                let mac = copy_range(&rest, 0, i);
                let name = copy_range(&rest, i + 1, rest.len());
                assert(mac@ == rest@.take(i as int));
                assert(name@ == rest@.skip(i + 1));
                Some((mac, name))
            } else {
                None
            }
        },
        None => None,
    }
}

/// Parses a `Device AA:BB:CC:DD:EE:FF Name` line into `(mac, name)`.
pub fn parse_device_line(line: &str) -> (r: Option<(String, String)>)
    ensures
        match r {
            Some((m, n)) => parse_device(line@) == Some((m@, n@)),
            None => parse_device(line@) is None,
        },
{
    match parse_device_chars(&chars_of(line), &chars_of("Device ")) {
        Some((m, n)) => Some((string_of(&m), string_of(&n))),
        None => None,
    }
}

/// Whether `bluetoothctl show` reports the adapter powered.
pub fn is_powered(show: &str) -> (r: bool)
    ensures
        r == powered_spec(show@),
{
    let ls = lines_of(&chars_of(show));
    let want = chars_of("Powered: yes");
    let ghost lv = ls.deep_view();
    let mut i: usize = 0;
    while i < ls.len()
        invariant
            0 <= i <= ls.len(),
            lv == ls.deep_view(),
            lv == lines(show@),
            want@ == "Powered: yes"@,
            forall|j: int| 0 <= j < i ==> !powered_line(#[trigger] lv[j]),
        decreases ls.len() - i,
    {
        assert(lv[i as int] == ls@[i as int]@);
        if chars_eq(&trim_chars(&ls[i]), &want) {
            return true;
        }
        i = i + 1;
    }
    false
}

fn device_list_exec(text: &str) -> (r: Vec<(Vec<char>, Vec<char>)>)
    ensures
        r@.len() == device_list(lines(text@)).len(),
        forall|i: int| 0 <= i < r@.len() ==> (#[trigger] r@[i]).0@ == device_list(lines(text@))[i].0
            && r@[i].1@ == device_list(lines(text@))[i].1,
{
    let ls = lines_of(&chars_of(text));
    let prefix = chars_of("Device ");
    let ghost lv = ls.deep_view();
    let mut out: Vec<(Vec<char>, Vec<char>)> = Vec::new();
    let mut i: usize = 0;
    while i < ls.len()
        invariant
            0 <= i <= ls.len(),
            lv == ls.deep_view(),
            lv == lines(text@),
            prefix@ == "Device "@,
            out@.len() == device_list(lv.take(i as int)).len(),
            forall|j: int| 0 <= j < out@.len() ==> (#[trigger] out@[j]).0@ == device_list(lv.take(i as int))[j].0
                && out@[j].1@ == device_list(lv.take(i as int))[j].1,
        decreases ls.len() - i,
    {
        assert(lv[i as int] == ls@[i as int]@);
        assert(lv.take(i + 1).drop_last() == lv.take(i as int));
        assert(lv.take(i + 1).last() == lv[i as int]);
        let ghost prev = device_list(lv.take(i as int));
        match parse_device_chars(&ls[i], &prefix) {
            Some(d) => {
                out.push(d);
                assert(device_list(lv.take(i + 1)) == prev.push((out@[out@.len() - 1].0@, out@[out@.len() - 1].1@)));
            },
            None => {
                assert(device_list(lv.take(i + 1)) == prev);
            },
        }
        i = i + 1;
    }
    assert(lv.take(ls.len() as int) == lv);
    out
}

/// What the bar shows: given whether the adapter is powered and (when it
/// is) the output of `bluetoothctl devices Connected`.
pub fn summary(powered: bool, connected: &str) -> (s: Summary)
    ensures
        (s.icon@, s.label@) == summary_spec(powered, connected@),
{
    if !powered {
        return Summary { icon: string_from("bluetooth-disabled-symbolic"), label: string_from("Off") };
    }
    let ls = lines_of(&chars_of(connected));
    let prefix = chars_of("Device ");
    let ghost lv = ls.deep_view();
    let mut i: usize = 0;
    while i < ls.len()
        invariant
            0 <= i <= ls.len(),
            lv == ls.deep_view(),
            lv == lines(connected@),
            prefix@ == "Device "@,
            powered,
            forall|j: int| 0 <= j < i ==> !names_a_device()(#[trigger] lv[j]),
        decreases ls.len() - i,
    {
        assert(lv[i as int] == ls@[i as int]@);
        let parsed = parse_device_chars(&ls[i], &prefix);
        match parsed {
            Some(d) => {
                proof {
                    lemma_first_index_unique(lv, names_a_device(), i as int);
                    assert(parse_device(lv[i as int]) == Some((d.0@, d.1@)));
                }
                let res = Summary { icon: string_from("bluetooth-active-symbolic"), label: string_of(&d.1) };
                return res;
            },
            None => {},
        }
        i = i + 1;
    }
    proof {
        lemma_first_index_unique(lv, names_a_device(), ls.len() as int);
    }
    Summary { icon: string_from("bluetooth-active-symbolic"), label: string_from("On") }
}

fn contains_mac(list: &Vec<(Vec<char>, Vec<char>)>, mac: &Vec<char>) -> (r: bool)
    ensures
        r == exists|i: int| 0 <= i < list@.len() && (#[trigger] list@[i]).0@ == mac@,
{
    let mut i: usize = 0;
    while i < list.len()
        invariant
            0 <= i <= list.len(),
            forall|j: int| 0 <= j < i ==> (#[trigger] list@[j]).0@ != mac@,
        decreases list.len() - i,
    {
        if chars_eq(&list[i].0, mac) {
            return true;
        }
        i = i + 1;
    }
    false
}

/// The Bluetooth card: given whether the adapter is powered and (when it
/// is) the output of `bluetoothctl devices Connected` and
/// `bluetoothctl devices Paired`.
pub fn card_model(powered: bool, connected: &str, paired: &str) -> (card: BluetoothCard)
    ensures
        card.powered == powered,
        !powered ==> card.status@ == "Bluetooth is off"@ && card.devices.len() == 0,
        powered ==> ({
            let cm = macs(device_list(lines(connected@)));
            let pd = device_list(lines(paired@));
            &&& card.devices.len() == pd.len()
            &&& forall|i: int| 0 <= i < pd.len() ==> (#[trigger] card.devices@[i]).mac@ == pd[i].0
                && card.devices@[i].name@ == pd[i].1 && card.devices@[i].connected == cm.contains(pd[i].0)
            &&& card.status@ == card_status(connected_names(pd, cm))
        }),
{
    if !powered {
        return BluetoothCard { powered: false, status: string_from("Bluetooth is off"), devices: Vec::new() };
    }
    let conn = device_list_exec(connected);
    let pair = device_list_exec(paired);
    let ghost cm = macs(device_list(lines(connected@)));
    let ghost pd = device_list(lines(paired@));
    assert forall|m: Seq<char>| cm.contains(m) == exists|i: int| 0 <= i < conn@.len() && (#[trigger] conn@[i]).0@ == m by {
        if cm.contains(m) {
            let k = choose|k: int| 0 <= k < cm.len() && cm[k] == m;
            assert(conn@[k].0@ == m);
        }
        if exists|i: int| 0 <= i < conn@.len() && (#[trigger] conn@[i]).0@ == m {
            let k = choose|i: int| 0 <= i < conn@.len() && (#[trigger] conn@[i]).0@ == m;
            assert(cm[k] == m);
        }
    }
    let mut devices: Vec<Device> = Vec::new();
    let mut names: Vec<Vec<char>> = Vec::new();
    let mut i: usize = 0;
    while i < pair.len()
        invariant
            0 <= i <= pair.len(),
            pair@.len() == pd.len(),
            forall|j: int| 0 <= j < pair@.len() ==> (#[trigger] pair@[j]).0@ == pd[j].0 && pair@[j].1@ == pd[j].1,
            forall|m: Seq<char>| cm.contains(m) == exists|i: int| 0 <= i < conn@.len() && (#[trigger] conn@[i]).0@ == m,
            devices.len() == i,
            forall|j: int| 0 <= j < i ==> (#[trigger] devices@[j]).mac@ == pd[j].0 && devices@[j].name@ == pd[j].1
                && devices@[j].connected == cm.contains(pd[j].0),
            names.deep_view() == connected_names(pd.take(i as int), cm),
        decreases pair.len() - i,
    {
        let c = contains_mac(&conn, &pair[i].0);
        assert(c == cm.contains(pd[i as int].0));
        assert(pd.take(i + 1).drop_last() == pd.take(i as int));
        assert(pd.take(i + 1).last() == pd[i as int]);
        if c {
            let ghost before = names.deep_view();
            let n = copy_range(&pair[i].1, 0, pair[i].1.len());
            assert(n@ == pair@[i as int].1@);
            assert(n.deep_view() =~= n@);
            names.push(n);
            assert(names.deep_view() =~= before.push(pd[i as int].1));
        }
        devices.push(Device {
            mac: string_of(&pair[i].0),
            name: string_of(&pair[i].1),
            connected: c,
        });
        i = i + 1;
    }
    assert(pd.take(pd.len() as int) == pd);
    let status = if names.len() == 0 {
        string_from("No devices connected")
    } else {
        let mut t = chars_of("Connected: ");
        append_chars(&mut t, &join_chars(&names, &chars_of(", ")));
        string_of(&t)
    };
    BluetoothCard { powered: true, status, devices }
}

/// The icon of a device row.
pub fn device_icon(connected: bool) -> (r: &'static str)
    ensures
        r@ == (if connected { "bluetooth-active-symbolic"@ } else { "bluetooth-symbolic"@ }),
{
    if connected {
        "bluetooth-active-symbolic"
    } else {
        "bluetooth-symbolic"
    }
}


/// The card says no device is connected exactly when none of the paired
/// devices is among the connected ones.
pub proof fn law_no_devices_connected(paired: Seq<Pair>, connected: Seq<Seq<char>>)
    ensures
        (card_status(connected_names(paired, connected)) == "No devices connected"@) <==> forall|i: int|
            0 <= i < paired.len() ==> !connected.contains(#[trigger] paired[i].0),
    decreases paired.len(),
{
    reveal_strlit("No devices connected");
    reveal_strlit("Connected: ");
    if paired.len() > 0 {
        law_no_devices_connected(paired.drop_last(), connected);
        let names = connected_names(paired, connected);
        if names.len() > 0 {
            assert(card_status(names).len() > 0);
            assert(card_status(names)[0] == 'C');
        }
        assert forall|i: int| 0 <= i < paired.len() - 1 implies #[trigger] paired.drop_last()[i] == paired[i] by {}
        if connected_names(paired.drop_last(), connected).len() == 0 && !connected.contains(paired.last().0) {
            assert forall|i: int| 0 <= i < paired.len() implies !connected.contains(#[trigger] paired[i].0) by {
                if i < paired.len() - 1 {
                    assert(paired.drop_last()[i] == paired[i]);
                    assert(card_status(connected_names(paired.drop_last(), connected)) == "No devices connected"@);
                }
            }
        }
    }
}

/// The bar's Bluetooth label: `Off` (with the disabled icon) when the adapter
/// is off; when it is on, the name of a connected device if some line names
/// one, else `On`.
pub proof fn law_summary(powered: bool, connected: Seq<char>)
    ensures
        !powered ==> summary_spec(powered, connected) == ("bluetooth-disabled-symbolic"@, "Off"@),
        powered ==> summary_spec(powered, connected).0 == "bluetooth-active-symbolic"@,
        powered && (forall|i: int| 0 <= i < lines(connected).len() ==> parse_device(#[trigger] lines(connected)[i]) is None)
            ==> summary_spec(powered, connected).1 == "On"@,
        powered && (exists|i: int| 0 <= i < lines(connected).len() && parse_device(#[trigger] lines(connected)[i]) is Some)
            ==> exists|i: int| 0 <= i < lines(connected).len() && (#[trigger] parse_device(lines(connected)[i])) is Some
                && parse_device(lines(connected)[i]).unwrap().1 == summary_spec(powered, connected).1,
{
    let ls = lines(connected);
    crate::text::lemma_first_index(ls, names_a_device());
    let i = first_index(ls, names_a_device());
    if powered && (forall|k: int| 0 <= k < ls.len() ==> parse_device(#[trigger] ls[k]) is None) {
        if 0 <= i < ls.len() {
            assert(names_a_device()(ls[i]));
            assert(parse_device(ls[i]) is None);
        }
    }
    if powered && (exists|k: int| 0 <= k < ls.len() && parse_device(#[trigger] ls[k]) is Some) {
        let k = choose|k: int| 0 <= k < ls.len() && parse_device(#[trigger] ls[k]) is Some;
        assert(names_a_device()(ls[k]));
        assert(0 <= i < ls.len());
        assert(names_a_device()(ls[i]));
        assert(parse_device(ls[i]) is Some);
    }
}
}
