//! Network module: what `nmcli` reports, read into the bar's Wi-Fi / wired /
//! offline state and the Wi-Fi card's list of nearby networks.
use vstd::prelude::*;

use crate::order::{in_order, is_stable_order, stable_order};
use crate::text::{
    append_chars, chars_eq, chars_of, first_index, lemma_first_index_unique, lines, lines_of,
    parse_unsigned, parse_unsigned_chars, replace, replace_chars, splitn, splitn_chars, string_from,
    string_of, trim, trim_chars,
};

verus! {

/// What the bar shows for the network.
pub enum Status {
    Wifi { ssid: String, signal: u8 },
    Wired,
    Offline,
}

/// One nearby Wi-Fi network in the card.
pub struct Network {
    pub ssid: String,
    pub signal: u8,
    pub secured: bool,
    pub active: bool,
}

/// The Wi-Fi card: radio state, status line and nearby networks (strongest
/// first).
pub struct NetworkCard {
    pub enabled: bool,
    pub status: String,
    pub networks: Vec<Network>,
}

/// A network as plain values: (ssid, signal, secured, active).
pub type Row = (Seq<char>, u8, bool, bool);

impl Network {
    pub open spec fn model(&self) -> Row {
        (self.ssid@, self.signal, self.secured, self.active)
    }
}

pub open spec fn models(v: Seq<Network>) -> Seq<Row> {
    Seq::new(v.len(), |i: int| v[i].model())
}

// ───────────────────────── specifications ─────────────────────────

/// `nmcli -t` escapes a literal `:` in a field as `\:`.
pub open spec fn unescape_spec(field: Seq<char>) -> Seq<char> {
    replace(field, "\\:"@, ":"@)
}

/// A signal field as `parse::<u8>().unwrap_or(0)` reads it.
pub open spec fn signal_of(field: Seq<char>) -> u8 {
    match parse_unsigned(field, 255) {
        Some(v) => v as u8,
        None => 0,
    }
}

/// A `TYPE:STATE` line of `nmcli device status` for a connected device of
/// type `kind`.
pub open spec fn connected_line(line: Seq<char>, kind: Seq<char>) -> bool {
    let p = splitn(line, 3, ':');
    p.len() >= 2 && p[1] == "connected"@ && p[0] == kind
}

/// Some device of type `kind` is connected.
pub open spec fn has_connected(devices: Seq<char>, kind: Seq<char>) -> bool {
    exists|i: int| 0 <= i < lines(devices).len() && connected_line(#[trigger] lines(devices)[i], kind)
}

/// An `ACTIVE:SIGNAL:SSID` line of the network in use.
pub open spec fn active_line(line: Seq<char>) -> bool {
    let p = splitn(line, 3, ':');
    p.len() == 3 && p[0] == "yes"@
}

pub open spec fn active_line_pred() -> spec_fn(Seq<char>) -> bool {
    |l: Seq<char>| active_line(l)
}

/// The SSID and signal of the first network in use, if any.
pub open spec fn active_wifi(wifi: Seq<char>) -> Option<(Seq<char>, u8)> {
    let ls = lines(wifi);
    let i = first_index(ls, active_line_pred());
    if 0 <= i < ls.len() {
        let p = splitn(ls[i], 3, ':');
        Some((unescape_spec(p[2]), signal_of(p[1])))
    } else {
        None
    }
}

/// The `(ssid, signal)` of a status: `Some` for Wi-Fi.
pub open spec fn status_model(s: Status) -> (u8, Seq<char>, u8) {
    match s {
        Status::Wifi { ssid, signal } => (0, ssid@, signal),
        Status::Wired => (1, seq![], 0),
        Status::Offline => (2, seq![], 0),
    }
}

/// The status for the device list `devices` and the Wi-Fi list `wifi` (read
/// only when a Wi-Fi device is connected): Wi-Fi wins over wired; a
/// connected Wi-Fi with no network in use shows no SSID and no signal.
pub open spec fn status_spec(devices: Seq<char>, wifi: Seq<char>) -> (u8, Seq<char>, u8) {
    if has_connected(devices, "wifi"@) {
        match active_wifi(wifi) {
            Some((ssid, signal)) => (0, ssid, signal),
            None => (0, seq![], 0),
        }
    } else if has_connected(devices, "ethernet"@) {
        (1, seq![], 0)
    } else {
        (2, seq![], 0)
    }
}

/// The network an `ACTIVE:SIGNAL:SECURITY:SSID` scan line describes; lines
/// with fewer fields or an empty SSID describe none.
pub open spec fn scan_row(line: Seq<char>) -> Option<Row> {
    let p = splitn(line, 4, ':');
    if p.len() == 4 {
        let ssid = unescape_spec(p[3]);
        if ssid.len() == 0 {
            None
        } else {
            Some((ssid, signal_of(p[1]), p[2].len() > 0, p[0] == "yes"@))
        }
    } else {
        None
    }
}

/// The networks described by the scan lines `ls`, in order.
pub open spec fn scan_rows(ls: Seq<Seq<char>>) -> Seq<Row>
    decreases ls.len(),
{
    if ls.len() == 0 {
        seq![]
    } else {
        let prev = scan_rows(ls.drop_last());
        match scan_row(ls.last()) {
            Some(r) => prev.push(r),
            None => prev,
        }
    }
}

pub open spec fn same_ssid(ssid: Seq<char>) -> spec_fn(Row) -> bool {
    |r: Row| r.0 == ssid
}

/// Adds one scanned network to the list: a network already listed under the
/// same SSID keeps its place and security, takes the stronger signal, and
/// is active if either is.
pub open spec fn merge_row(list: Seq<Row>, r: Row) -> Seq<Row> {
    let i = first_index(list, same_ssid(r.0));
    if 0 <= i < list.len() {
        let e = list[i];
        list.update(i, (e.0, if r.1 > e.1 { r.1 } else { e.1 }, e.2, e.3 || r.3))
    } else {
        list.push(r)
    }
}

/// The scanned networks, one entry per SSID, in order of first appearance.
pub open spec fn merged(rows: Seq<Row>) -> Seq<Row>
    decreases rows.len(),
{
    if rows.len() == 0 {
        seq![]
    } else {
        merge_row(merged(rows.drop_last()), rows.last())
    }
}

pub open spec fn signal_keys(rows: Seq<Row>) -> Seq<u64> {
    Seq::new(rows.len(), |i: int| rows[i].1 as u64)
}

pub open spec fn is_active_row() -> spec_fn(Row) -> bool {
    |r: Row| r.3
}

/// The card's status line for the listed networks.
pub open spec fn card_status(nets: Seq<Row>) -> Seq<char> {
    let i = first_index(nets, is_active_row());
    if 0 <= i < nets.len() {
        "Connected to "@ + nets[i].0
    } else {
        "Not connected"@
    }
}

/// The icon for a signal strength.
pub open spec fn signal_icon_spec(signal: u8) -> Seq<char> {
    if 80 <= signal && signal <= 100 {
        "network-wireless-signal-excellent-symbolic"@
    } else if 60 <= signal && signal <= 79 {
        "network-wireless-signal-good-symbolic"@
    } else if 40 <= signal && signal <= 59 {
        "network-wireless-signal-ok-symbolic"@
    } else if 20 <= signal && signal <= 39 {
        "network-wireless-signal-weak-symbolic"@
    } else {
        "network-wireless-signal-none-symbolic"@
    }
}

// ───────────────────────── executable parts ─────────────────────────

/// `nmcli -t` escapes literal `:` in field values as `\:`.
pub fn unescape(field: &str) -> (res: String)
    ensures
        res@ == unescape_spec(field@),
{
    proof {
        reveal_strlit("\\:");
    }
    let pat = chars_of("\\:");
    let out = replace_chars(&chars_of(field), &pat, &chars_of(":"));
    string_of(&out)
}

fn unescape_chars(field: &Vec<char>) -> (res: Vec<char>)
    ensures
        res@ == unescape_spec(field@),
{
    proof {
        reveal_strlit("\\:");
    }
    let pat = chars_of("\\:");
    replace_chars(field, &pat, &chars_of(":"))
}

fn signal_of_chars(field: &Vec<char>) -> (r: u8)
    ensures
        r == signal_of(field@),
{
    match parse_unsigned_chars(field, 255) {
        Some(v) => v as u8,
        None => 0,
    }
}

/// The icon for a signal strength (0–100; anything above 100 shows none).
pub fn signal_icon(signal: u8) -> (r: &'static str)
    ensures
        r@ == signal_icon_spec(signal),
{
    if 80 <= signal && signal <= 100 {
        "network-wireless-signal-excellent-symbolic"
    } else if 60 <= signal && signal <= 79 {
        "network-wireless-signal-good-symbolic"
    } else if 40 <= signal && signal <= 59 {
        "network-wireless-signal-ok-symbolic"
    } else if 20 <= signal && signal <= 39 {
        "network-wireless-signal-weak-symbolic"
    } else {
        "network-wireless-signal-none-symbolic"
    }
}

/// Which device types `nmcli -t -f TYPE,STATE device status` reports
/// connected: `(wifi, ethernet)`.
pub fn device_connections(devices: &str) -> (r: (bool, bool))
    ensures
        r.0 == has_connected(devices@, "wifi"@),
        r.1 == has_connected(devices@, "ethernet"@),
{
    let ls = lines_of(&chars_of(devices));
    let connected = chars_of("connected");
    let wifi_kind = chars_of("wifi");
    let eth_kind = chars_of("ethernet");
    let ghost lv = ls.deep_view();
    let mut wifi = false;
    let mut wired = false;
    let mut i: usize = 0;
    while i < ls.len()
        invariant
            0 <= i <= ls.len(),
            lv == ls.deep_view(),
            lv == lines(devices@),
            connected@ == "connected"@,
            wifi_kind@ == "wifi"@,
            eth_kind@ == "ethernet"@,
            wifi == exists|j: int| 0 <= j < i && connected_line(#[trigger] lv[j], "wifi"@),
            wired == exists|j: int| 0 <= j < i && connected_line(#[trigger] lv[j], "ethernet"@),
        decreases ls.len() - i,
    {
        assert(lv[i as int] == ls@[i as int]@);
        let p = splitn_chars(&ls[i], 3, ':');
        let ghost pv = p.deep_view();
        if p.len() >= 2 && chars_eq(&p[1], &connected) {
            assert(pv[1] == p@[1]@ && pv[0] == p@[0]@);
            if chars_eq(&p[0], &wifi_kind) {
                wifi = true;
            }
            if chars_eq(&p[0], &eth_kind) {
                wired = true;
            }
        } else {
            assert(p.len() >= 2 ==> pv[1] == p@[1]@);
        }
        proof {
            assert(connected_line(lv[i as int], "wifi"@) == (p.len() >= 2 && pv[1] == "connected"@ && pv[0] == "wifi"@));
        }
        i = i + 1;
    }
    (wifi, wired)
}

fn active_wifi_exec(wifi: &str) -> (r: Option<(String, u8)>)
    ensures
        match r {
            Some((ssid, signal)) => active_wifi(wifi@) == Some((ssid@, signal)),
            None => active_wifi(wifi@) is None,
        },
{
    let ls = lines_of(&chars_of(wifi));
    let yes = chars_of("yes");
    let ghost lv = ls.deep_view();
    let mut i: usize = 0;
    while i < ls.len()
        invariant
            0 <= i <= ls.len(),
            lv == ls.deep_view(),
            lv == lines(wifi@),
            yes@ == "yes"@,
            forall|j: int| 0 <= j < i ==> !active_line_pred()(#[trigger] lv[j]),
        decreases ls.len() - i,
    {
        assert(lv[i as int] == ls@[i as int]@);
        let p = splitn_chars(&ls[i], 3, ':');
        let ghost pv = p.deep_view();
        if p.len() == 3 && chars_eq(&p[0], &yes) {
            assert(pv[0] == p@[0]@ && pv[1] == p@[1]@ && pv[2] == p@[2]@);
            proof {
                lemma_first_index_unique(lv, active_line_pred(), i as int);
            }
            let ssid = string_of(&unescape_chars(&p[2]));
            let signal = signal_of_chars(&p[1]);
            return Some((ssid, signal));
        }
        assert(p.len() == 3 ==> pv[0] == p@[0]@);
        i = i + 1;
    }
    proof {
        lemma_first_index_unique(lv, active_line_pred(), lv.len() as int);
    }
    None
}

/// What the bar shows for the network, from the output of
/// `nmcli -t -f TYPE,STATE device status` and (when a Wi-Fi device is
/// connected) of `nmcli -t -f ACTIVE,SIGNAL,SSID device wifi`.
pub fn status(devices: &str, wifi: &str) -> (s: Status)
    ensures
        status_model(s) == status_spec(devices@, wifi@),
{
    let (wifi_connected, wired_connected) = device_connections(devices);
    if wifi_connected {
        match active_wifi_exec(wifi) {
            Some((ssid, signal)) => Status::Wifi { ssid, signal },
            None => Status::Wifi { ssid: String::new(), signal: 0 },
        }
    } else if wired_connected {
        Status::Wired
    } else {
        Status::Offline
    }
}

fn scan_row_exec(line: &Vec<char>, yes: &Vec<char>) -> (r: Option<Network>)
    requires
        yes@ == "yes"@,
    ensures
        match r {
            Some(n) => scan_row(line@) == Some(n.model()),
            None => scan_row(line@) is None,
        },
{
    let p = splitn_chars(line, 4, ':');
    let ghost pv = p.deep_view();
    if p.len() != 4 {
        return None;
    }
    assert(pv[0] == p@[0]@ && pv[1] == p@[1]@ && pv[2] == p@[2]@ && pv[3] == p@[3]@);
    let ssid = unescape_chars(&p[3]);
    if ssid.len() == 0 {
        return None;
    }
    let signal = signal_of_chars(&p[1]);
    let secured = p[2].len() > 0;
    let active = chars_eq(&p[0], yes);
    Some(Network { ssid: string_of(&ssid), signal, secured, active })
}

fn merge_into(entries: &mut Vec<Network>, row: Network)
    ensures
        models(final(entries)@) == merge_row(models(old(entries)@), row.model()),
{
    let ghost m0 = models(entries@);
    let mut i: usize = 0;
    while i < entries.len() && !entries[i].ssid.eq(&row.ssid)
        invariant
            0 <= i <= entries.len(),
            m0 == models(entries@),
            forall|j: int| 0 <= j < i ==> !same_ssid(row.ssid@)(#[trigger] m0[j]),
        decreases entries.len() - i,
    {
        i = i + 1;
    }
    proof {
        lemma_first_index_unique(m0, same_ssid(row.ssid@), i as int);
    }
    if i < entries.len() {
        if row.signal > entries[i].signal {
            entries[i].signal = row.signal;
        }
        let a = entries[i].active || row.active;
        entries[i].active = a;
        assert(models(entries@) =~= merge_row(m0, row.model()));
    } else {
        entries.push(row);
        assert(models(entries@) =~= merge_row(m0, row.model()));
    }
}

fn clone_network(n: &Network) -> (r: Network)
    ensures
        r.model() == n.model(),
{
    Network { ssid: n.ssid.clone(), signal: n.signal, secured: n.secured, active: n.active }
}

/// Whether `nmcli radio wifi` reports the Wi-Fi radio enabled.
pub fn radio_enabled(radio: &str) -> (r: bool)
    ensures
        r == (trim(radio@) == "enabled"@),
{
    chars_eq(&trim_chars(&chars_of(radio)), &chars_of("enabled"))
}

/// The Wi-Fi card, from the output of `nmcli radio wifi` and (when the radio
/// is enabled) of `nmcli -t -f ACTIVE,SIGNAL,SECURITY,SSID device wifi list`:
/// one entry per SSID, strongest signal first (equal signals in scan order).
pub fn card_model(radio: &str, scan: &str) -> (card: NetworkCard)
    ensures
        card.enabled == (trim(radio@) == "enabled"@),
        !card.enabled ==> card.status@ == "Wi-Fi is off"@ && card.networks.len() == 0,
        card.enabled ==> ({
            let m = merged(scan_rows(lines(scan@)));
            &&& card.networks.len() == m.len()
            &&& forall|i: int, j: int| 0 <= i < j < card.networks.len() ==> card.networks@[i].signal >= card.networks@[j].signal
            &&& exists|order: Seq<usize>|
                #![trigger is_stable_order(order, signal_keys(m), true)]
                is_stable_order(order, signal_keys(m), true) && forall|i: int|
                    0 <= i < m.len() ==> (#[trigger] card.networks@[i]).model() == m[order[i] as int]
            &&& card.status@ == card_status(models(card.networks@))
        }),
{
    let enabled = chars_eq(&trim_chars(&chars_of(radio)), &chars_of("enabled"));
    if !enabled {
        return NetworkCard { enabled: false, status: string_from("Wi-Fi is off"), networks: Vec::new() };
    }
    let ls = lines_of(&chars_of(scan));
    let ghost lv = ls.deep_view();
    let yes = chars_of("yes");
    let mut entries: Vec<Network> = Vec::new();
    let mut i: usize = 0;
    while i < ls.len()
        invariant
            0 <= i <= ls.len(),
            lv == ls.deep_view(),
            yes@ == "yes"@,
            models(entries@) == merged(scan_rows(lv.take(i as int))),
        decreases ls.len() - i,
    {
        assert(lv[i as int] == ls@[i as int]@);
        assert(lv.take(i + 1).drop_last() == lv.take(i as int));
        let ghost prev = scan_rows(lv.take(i as int));
        assert(lv.take(i + 1).last() == lv[i as int]);
        match scan_row_exec(&ls[i], &yes) {
            Some(n) => {
                let ghost r = n.model();
                assert(scan_rows(lv.take(i + 1)) == prev.push(r));
                assert(prev.push(r).drop_last() == prev);
                assert(merged(prev.push(r)) == merge_row(merged(prev), r));
                merge_into(&mut entries, n);
            },
            None => {
                assert(scan_rows(lv.take(i + 1)) == prev);
            },
        }
        i = i + 1;
    }
    assert(lv.take(ls.len() as int) == lv);
    let ghost m = models(entries@);
    let mut keys: Vec<u64> = Vec::new();
    let mut k: usize = 0;
    while k < entries.len()
        invariant
            0 <= k <= entries.len(),
            m == models(entries@),
            keys@ == signal_keys(m).take(k as int),
        decreases entries.len() - k,
    {
        keys.push(entries[k].signal as u64);
        assert(keys@ =~= signal_keys(m).take(k + 1));
        k = k + 1;
    }
    assert(keys@ =~= signal_keys(m));
    let order = stable_order(&keys, true);
    let mut nets: Vec<Network> = Vec::new();
    let mut j: usize = 0;
    while j < order.len()
        invariant
            0 <= j <= order.len(),
            m == models(entries@),
            is_stable_order(order@, signal_keys(m), true),
            nets.len() == j,
            forall|q: int| 0 <= q < j ==> (#[trigger] nets@[q]).model() == m[order@[q] as int],
        decreases order.len() - j,
    {
        assert(order@[j as int] < signal_keys(m).len());
        let n = clone_network(&entries[order[j]]);
        nets.push(n);
        j = j + 1;
    }
    proof {
        assert forall|x: int, y: int| 0 <= x < y < nets.len() implies nets@[x].signal >= nets@[y].signal by {
            assert(nets@[x].model() == m[order@[x] as int]);
            assert(nets@[y].model() == m[order@[y] as int]);
            assert(in_order(signal_keys(m)[order@[x] as int], signal_keys(m)[order@[y] as int], true));
        }
    }
    let ghost nm = models(nets@);
    let mut a: usize = 0;
    while a < nets.len() && !nets[a].active
        invariant
            0 <= a <= nets.len(),
            nm == models(nets@),
            forall|q: int| 0 <= q < a ==> !is_active_row()(#[trigger] nm[q]),
        decreases nets.len() - a,
    {
        a = a + 1;
    }
    proof {
        lemma_first_index_unique(nm, is_active_row(), a as int);
    }
    let status = if a < nets.len() {
        let mut t = chars_of("Connected to ");
        append_chars(&mut t, &chars_of(nets[a].ssid.as_str()));
        string_of(&t)
    } else {
        string_from("Not connected")
    };
    NetworkCard { enabled: true, status, networks: nets }
}


/// What the bar shows for a status: `(icon, label)`.
pub open spec fn status_view_spec(s: (u8, Seq<char>, u8)) -> (Seq<char>, Seq<char>) {
    if s.0 == 0 {
        (signal_icon_spec(s.2), if s.1.len() == 0 { "Wi-Fi"@ } else { s.1 })
    } else if s.0 == 1 {
        ("network-wired-symbolic"@, "Wired"@)
    } else {
        ("network-wireless-offline-symbolic"@, "Offline"@)
    }
}

/// What the bar shows for a status: the signal icon and SSID (or `Wi-Fi`),
/// `Wired`, or `Offline`.
pub fn status_view(s: &Status) -> (r: (String, String))
    ensures
        (r.0@, r.1@) == status_view_spec(status_model(*s)),
{
    match s {
        Status::Wifi { ssid, signal } => (
            string_from(signal_icon(*signal)),
            if ssid.as_str().is_empty() {
                string_from("Wi-Fi")
            } else {
                ssid.clone()
            },
        ),
        Status::Wired => (string_from("network-wired-symbolic"), string_from("Wired")),
        Status::Offline => (string_from("network-wireless-offline-symbolic"), string_from("Offline")),
    }
}

// ───────────────────────── laws ─────────────────────────

proof fn lemma_merge_row(p: Seq<Row>, r: Row)
    ensures
        ({
            let m = merge_row(p, r);
            let pos = first_index(p, same_ssid(r.0));
            &&& 0 <= pos <= p.len()
            &&& pos < p.len() ==> {
                &&& p[pos].0 == r.0
                &&& m.len() == p.len()
                &&& forall|i: int| 0 <= i < p.len() && i != pos ==> #[trigger] m[i] == p[i]
                &&& m[pos] == (p[pos].0, if r.1 > p[pos].1 { r.1 } else { p[pos].1 }, p[pos].2, p[pos].3 || r.3)
            }
            &&& pos == p.len() ==> {
                &&& m == p.push(r)
                &&& forall|i: int| 0 <= i < p.len() ==> (#[trigger] p[i]).0 != r.0
            }
        }),
{
    crate::text::lemma_first_index(p, same_ssid(r.0));
    let pos = first_index(p, same_ssid(r.0));
    assert forall|i: int| 0 <= i < pos implies (#[trigger] p[i]).0 != r.0 by {
        assert(!same_ssid(r.0)(p[i]));
    }
}

/// The card lists each SSID once.
pub proof fn law_one_entry_per_ssid(rows: Seq<Row>)
    ensures
        forall|i: int, j: int| 0 <= i < j < merged(rows).len() ==> merged(rows)[i].0 != merged(rows)[j].0,
    decreases rows.len(),
{
    if rows.len() > 0 {
        let p = merged(rows.drop_last());
        let r = rows.last();
        law_one_entry_per_ssid(rows.drop_last());
        lemma_merge_row(p, r);
        let m = merged(rows);
        assert(m == merge_row(p, r));
        assert forall|i: int, j: int| 0 <= i < j < m.len() implies m[i].0 != m[j].0 by {
            if j == p.len() {
                assert(m[j] == r);
                assert(m[i] == p[i]);
            } else {
                assert(m[i].0 == p[i].0 && m[j].0 == p[j].0);
            }
        }
    }
}

/// Every scanned network is listed under its SSID, with at least its signal,
/// and active if it was.
pub proof fn law_every_scan_listed(rows: Seq<Row>)
    ensures
        forall|k: int| 0 <= k < rows.len() ==> exists|i: int|
            0 <= i < merged(rows).len() && #[trigger] merged(rows)[i].0 == (#[trigger] rows[k]).0
                && merged(rows)[i].1 >= rows[k].1 && (rows[k].3 ==> merged(rows)[i].3),
    decreases rows.len(),
{
    if rows.len() > 0 {
        let init = rows.drop_last();
        let p = merged(init);
        let r = rows.last();
        law_every_scan_listed(init);
        lemma_merge_row(p, r);
        let m = merged(rows);
        assert(m == merge_row(p, r));
        let pos = first_index(p, same_ssid(r.0));
        assert forall|k: int| 0 <= k < rows.len() implies exists|i: int|
            0 <= i < m.len() && #[trigger] m[i].0 == (#[trigger] rows[k]).0 && m[i].1 >= rows[k].1
                && (rows[k].3 ==> m[i].3) by {
            if k == rows.len() - 1 {
                if pos < p.len() {
                    assert(m[pos].0 == rows[k].0);
                } else {
                    assert(m[p.len() as int] == rows[k]);
                }
            } else {
                assert(rows[k] == init[k]);
                let i = choose|i: int| 0 <= i < p.len() && #[trigger] p[i].0 == (#[trigger] init[k]).0 && p[i].1
                    >= init[k].1 && (init[k].3 ==> p[i].3);
                assert(m[i].0 == p[i].0);
            }
        }
    }
}

/// Each listed signal is the signal of some scan of that SSID (so, with the
/// previous law, the strongest).
pub proof fn law_listed_signal_was_scanned(rows: Seq<Row>)
    ensures
        forall|i: int| 0 <= i < merged(rows).len() ==> exists|k: int|
            0 <= k < rows.len() && (#[trigger] rows[k]).0 == (#[trigger] merged(rows)[i]).0 && rows[k].1
                == merged(rows)[i].1,
    decreases rows.len(),
{
    if rows.len() > 0 {
        let init = rows.drop_last();
        let p = merged(init);
        let r = rows.last();
        law_listed_signal_was_scanned(init);
        lemma_merge_row(p, r);
        let m = merged(rows);
        assert(m == merge_row(p, r));
        let pos = first_index(p, same_ssid(r.0));
        assert forall|i: int| 0 <= i < m.len() implies exists|k: int|
            0 <= k < rows.len() && (#[trigger] rows[k]).0 == (#[trigger] m[i]).0 && rows[k].1 == m[i].1 by {
            if (i == pos && pos < p.len() && r.1 > p[pos].1) || i == p.len() {
                assert(rows[rows.len() - 1] == r);
            } else {
                assert(m[i].0 == p[i].0 && m[i].1 == p[i].1);
                let k = choose|k: int| 0 <= k < init.len() && (#[trigger] init[k]).0 == (#[trigger] p[i]).0 && init[k].1 == p[i].1;
                assert(rows[k] == init[k]);
            }
        }
    }
}

proof fn lemma_active_was_scanned(rows: Seq<Row>)
    ensures
        forall|i: int| 0 <= i < merged(rows).len() && (#[trigger] merged(rows)[i]).3 ==> exists|k: int|
            0 <= k < rows.len() && (#[trigger] rows[k]).0 == merged(rows)[i].0 && rows[k].3,
    decreases rows.len(),
{
    if rows.len() > 0 {
        let init = rows.drop_last();
        let p = merged(init);
        let r = rows.last();
        lemma_active_was_scanned(init);
        lemma_merge_row(p, r);
        let m = merged(rows);
        assert(m == merge_row(p, r));
        assert forall|i: int| 0 <= i < m.len() && (#[trigger] m[i]).3 implies exists|k: int|
            0 <= k < rows.len() && (#[trigger] rows[k]).0 == m[i].0 && rows[k].3 by {
            if i < p.len() && p[i].3 {
                let k = choose|k: int| 0 <= k < init.len() && (#[trigger] init[k]).0 == p[i].0 && init[k].3;
                assert(rows[k] == init[k]);
                assert(m[i].0 == p[i].0);
            } else {
                assert(rows[rows.len() - 1] == r);
                assert(m[i].0 == r.0 && r.3);
            }
        }
    }
}

/// A listed network is active exactly when some scan of its SSID was.
pub proof fn law_listed_active(rows: Seq<Row>)
    ensures
        forall|i: int| 0 <= i < merged(rows).len() ==> ((#[trigger] merged(rows)[i]).3 <==> exists|k: int|
            0 <= k < rows.len() && (#[trigger] rows[k]).0 == merged(rows)[i].0 && rows[k].3),
{
    lemma_active_was_scanned(rows);
    law_every_scan_listed(rows);
    law_one_entry_per_ssid(rows);
    let m = merged(rows);
    assert forall|i: int| 0 <= i < m.len() && (exists|k: int|
        0 <= k < rows.len() && (#[trigger] rows[k]).0 == m[i].0 && rows[k].3) implies (#[trigger] m[i]).3 by {
        let k = choose|k: int| 0 <= k < rows.len() && (#[trigger] rows[k]).0 == m[i].0 && rows[k].3;
        let i2 = choose|i2: int| 0 <= i2 < m.len() && #[trigger] m[i2].0 == (#[trigger] rows[k]).0 && m[i2].1
            >= rows[k].1 && (rows[k].3 ==> m[i2].3);
        if i2 != i {
            if i2 < i {
                assert(m[i2].0 != m[i].0);
            } else {
                assert(m[i].0 != m[i2].0);
            }
        }
    }
}

/// No listed network has an empty SSID.
pub proof fn law_no_empty_ssid(ls: Seq<Seq<char>>)
    ensures
        forall|i: int| 0 <= i < scan_rows(ls).len() ==> (#[trigger] scan_rows(ls)[i]).0.len() > 0,
        forall|i: int| 0 <= i < merged(scan_rows(ls)).len() ==> (#[trigger] merged(scan_rows(ls))[i]).0.len() > 0,
    decreases ls.len(),
{
    if ls.len() > 0 {
        law_no_empty_ssid(ls.drop_last());
        let prev = scan_rows(ls.drop_last());
        assert forall|i: int| 0 <= i < scan_rows(ls).len() implies (#[trigger] scan_rows(ls)[i]).0.len() > 0 by {
            if i < prev.len() {
                assert(scan_rows(ls)[i] == prev[i]);
            }
        }
    }
    let rows = scan_rows(ls);
    law_listed_signal_was_scanned(rows);
    assert forall|i: int| 0 <= i < merged(rows).len() implies (#[trigger] merged(rows)[i]).0.len() > 0 by {
        let m = merged(rows);
        let k = choose|k: int| 0 <= k < rows.len() && (#[trigger] rows[k]).0 == (#[trigger] m[i]).0 && rows[k].1 == m[i].1;
        assert(rows[k].0.len() > 0);
    }
}

/// The bar's label for Wi-Fi is the SSID in use; only without one does it
/// fall back to `Wi-Fi`. Wired and offline show their own words, and the
/// label is never empty.
pub proof fn law_bar_label(s: Status)
    ensures
        status_view_spec(status_model(s)).1.len() > 0,
        s matches Status::Wifi { ssid, .. } ==> {
            &&& ssid@.len() > 0 ==> status_view_spec(status_model(s)).1 == ssid@
            &&& ssid@.len() == 0 ==> status_view_spec(status_model(s)).1 == "Wi-Fi"@
        },
        s is Wired ==> status_view_spec(status_model(s)).1 == "Wired"@,
        s is Offline ==> status_view_spec(status_model(s)).1 == "Offline"@,
{
    reveal_strlit("Wi-Fi");
    reveal_strlit("Wired");
    reveal_strlit("Offline");
}

/// Two Wi-Fi statuses with the same signal show the same icon, whatever
/// their SSIDs: the icon follows the signal alone.
pub proof fn law_bar_icon_follows_signal(a: Status, b: Status)
    requires
        a is Wifi,
        b is Wifi,
        a->signal == b->signal,
    ensures
        status_view_spec(status_model(a)).0 == status_view_spec(status_model(b)).0,
{
}

/// A scan line that describes a network marks it secured exactly when its
/// `SECURITY` field (the third) is non-empty; every line with four fields
/// and a non-empty SSID describes one.
pub proof fn law_scan_security(line: Seq<char>)
    ensures
        ({
            let p = splitn(line, 4, ':');
            &&& scan_row(line) matches Some(r) ==> p.len() == 4 && r.2 == (p[2].len() > 0)
            &&& p.len() == 4 && unescape_spec(p[3]).len() > 0 ==> scan_row(line) is Some
        }),
{
}

/// Each listed network carries the security of some scan of its SSID.
pub proof fn law_listed_security_was_scanned(rows: Seq<Row>)
    ensures
        forall|i: int| 0 <= i < merged(rows).len() ==> exists|k: int|
            0 <= k < rows.len() && (#[trigger] rows[k]).0 == (#[trigger] merged(rows)[i]).0 && rows[k].2
                == merged(rows)[i].2,
    decreases rows.len(),
{
    if rows.len() > 0 {
        let init = rows.drop_last();
        let p = merged(init);
        let r = rows.last();
        law_listed_security_was_scanned(init);
        lemma_merge_row(p, r);
        let m = merged(rows);
        assert(m == merge_row(p, r));
        assert forall|i: int| 0 <= i < m.len() implies exists|k: int|
            0 <= k < rows.len() && (#[trigger] rows[k]).0 == (#[trigger] m[i]).0 && rows[k].2 == m[i].2 by {
            if i == p.len() {
                assert(rows[rows.len() - 1] == r);
            } else {
                assert(m[i].0 == p[i].0 && m[i].2 == p[i].2);
                let k = choose|k: int| 0 <= k < init.len() && (#[trigger] init[k]).0 == (#[trigger] p[i]).0 && init[k].2 == p[i].2;
                assert(rows[k] == init[k]);
            }
        }
    }
}

/// How many bars a signal icon shows: none, weak, ok, good, excellent.
pub open spec fn bars(icon: Seq<char>) -> int {
    if icon == "network-wireless-signal-excellent-symbolic"@ {
        4
    } else if icon == "network-wireless-signal-good-symbolic"@ {
        3
    } else if icon == "network-wireless-signal-ok-symbolic"@ {
        2
    } else if icon == "network-wireless-signal-weak-symbolic"@ {
        1
    } else {
        0
    }
}

/// Within the 0..=100 range nmcli reports, a stronger signal never shows
/// fewer bars; a full signal shows all of them and no signal none.
pub proof fn law_signal_icon_monotone(a: u8, b: u8)
    ensures
        a <= b <= 100 ==> bars(signal_icon_spec(a)) <= bars(signal_icon_spec(b)),
        bars(signal_icon_spec(100)) == 4,
        bars(signal_icon_spec(0)) == 0,
{
    reveal_strlit("network-wireless-signal-excellent-symbolic");
    reveal_strlit("network-wireless-signal-good-symbolic");
    reveal_strlit("network-wireless-signal-ok-symbolic");
    reveal_strlit("network-wireless-signal-weak-symbolic");
    reveal_strlit("network-wireless-signal-none-symbolic");
    assert("network-wireless-signal-excellent-symbolic"@ != "network-wireless-signal-good-symbolic"@) by { assert("network-wireless-signal-excellent-symbolic"@.len() != "network-wireless-signal-good-symbolic"@.len()); }
    assert("network-wireless-signal-excellent-symbolic"@ != "network-wireless-signal-ok-symbolic"@) by { assert("network-wireless-signal-excellent-symbolic"@.len() != "network-wireless-signal-ok-symbolic"@.len()); }
    assert("network-wireless-signal-excellent-symbolic"@ != "network-wireless-signal-weak-symbolic"@) by { assert("network-wireless-signal-excellent-symbolic"@.len() != "network-wireless-signal-weak-symbolic"@.len()); }
    assert("network-wireless-signal-excellent-symbolic"@ != "network-wireless-signal-none-symbolic"@) by { assert("network-wireless-signal-excellent-symbolic"@.len() != "network-wireless-signal-none-symbolic"@.len()); }
    assert("network-wireless-signal-good-symbolic"@ != "network-wireless-signal-ok-symbolic"@) by { assert("network-wireless-signal-good-symbolic"@.len() != "network-wireless-signal-ok-symbolic"@.len()); }
    assert("network-wireless-signal-good-symbolic"@ != "network-wireless-signal-weak-symbolic"@) by { assert("network-wireless-signal-good-symbolic"@[24] != "network-wireless-signal-weak-symbolic"@[24]); }
    assert("network-wireless-signal-good-symbolic"@ != "network-wireless-signal-none-symbolic"@) by { assert("network-wireless-signal-good-symbolic"@[24] != "network-wireless-signal-none-symbolic"@[24]); }
    assert("network-wireless-signal-ok-symbolic"@ != "network-wireless-signal-weak-symbolic"@) by { assert("network-wireless-signal-ok-symbolic"@.len() != "network-wireless-signal-weak-symbolic"@.len()); }
    assert("network-wireless-signal-ok-symbolic"@ != "network-wireless-signal-none-symbolic"@) by { assert("network-wireless-signal-ok-symbolic"@.len() != "network-wireless-signal-none-symbolic"@.len()); }
    assert("network-wireless-signal-weak-symbolic"@ != "network-wireless-signal-none-symbolic"@) by { assert("network-wireless-signal-weak-symbolic"@[24] != "network-wireless-signal-none-symbolic"@[24]); }
}
}
