use velo_shell::network::{card_model, device_connections, signal_icon, status, status_view, unescape, Status};

#[test]
fn unescape_restores_colons() {
    assert_eq!(unescape("My\\:Net"), "My:Net");
    assert_eq!(unescape("plain"), "plain");
    assert_eq!(unescape("a\\\\:b"), "a\\:b");
}

#[test]
fn signal_icons_by_strength() {
    assert_eq!(signal_icon(100), "network-wireless-signal-excellent-symbolic");
    assert_eq!(signal_icon(80), "network-wireless-signal-excellent-symbolic");
    assert_eq!(signal_icon(79), "network-wireless-signal-good-symbolic");
    assert_eq!(signal_icon(40), "network-wireless-signal-ok-symbolic");
    assert_eq!(signal_icon(20), "network-wireless-signal-weak-symbolic");
    assert_eq!(signal_icon(19), "network-wireless-signal-none-symbolic");
    assert_eq!(signal_icon(101), "network-wireless-signal-none-symbolic");
}

#[test]
fn devices_report_connections() {
    let devs = "wifi:connected\nethernet:unavailable\nloopback:connected (externally)\n";
    assert_eq!(device_connections(devs), (true, false));
    assert_eq!(device_connections("ethernet:connected"), (false, true));
    assert_eq!(device_connections("wifi"), (false, false));
}

#[test]
fn status_prefers_wifi() {
    let devs = "ethernet:connected\nwifi:connected\n";
    let wifi = "no:40:Other\nyes:72:Home\\:5G\n";
    match status(devs, wifi) {
        Status::Wifi { ssid, signal } => {
            assert_eq!(ssid, "Home:5G");
            assert_eq!(signal, 72);
        }
        _ => panic!("expected wifi"),
    }
    match status(devs, "no:40:Other\n") {
        Status::Wifi { ssid, signal } => assert!(ssid.is_empty() && signal == 0),
        _ => panic!("expected wifi"),
    }
    assert!(matches!(status("ethernet:connected\n", ""), Status::Wired));
    assert!(matches!(status("wifi:disconnected\n", ""), Status::Offline));
    match status("wifi:connected", "yes:strong:Cafe") {
        Status::Wifi { ssid, signal } => assert!(ssid == "Cafe" && signal == 0),
        _ => panic!("expected wifi"),
    }
}

#[test]
fn status_labels() {
    assert_eq!(status_view(&Status::Wifi { ssid: String::new(), signal: 90 }), (
        "network-wireless-signal-excellent-symbolic".to_string(),
        "Wi-Fi".to_string()
    ));
    assert_eq!(status_view(&Status::Wired), ("network-wired-symbolic".to_string(), "Wired".to_string()));
    assert_eq!(status_view(&Status::Offline), ("network-wireless-offline-symbolic".to_string(), "Offline".to_string()));
}

#[test]
fn card_merges_and_sorts_networks() {
    let scan = "no:40:WPA2:Cafe\n\
                yes:65:WPA2:Home\n\
                no:80::Open\n\
                no:70:WPA2:Cafe\n\
                no:55:WPA1:Home\n\
                no:90:WPA2:\n\
                no:65::Guest\\:Wifi\n\
                broken:line\n";
    let card = card_model("enabled\n", scan);
    assert!(card.enabled);
    let got: Vec<(String, u8, bool, bool)> =
        card.networks.iter().map(|n| (n.ssid.clone(), n.signal, n.secured, n.active)).collect();
    assert_eq!(
        got,
        vec![
            ("Open".to_string(), 80, false, false),
            ("Cafe".to_string(), 70, true, false),
            ("Home".to_string(), 65, true, true),
            ("Guest:Wifi".to_string(), 65, false, false),
        ]
    );
    assert_eq!(card.status, "Connected to Home");
}

#[test]
fn card_when_radio_off_or_not_connected() {
    let off = card_model("disabled\n", "yes:65:WPA2:Home\n");
    assert!(!off.enabled);
    assert_eq!(off.status, "Wi-Fi is off");
    assert!(off.networks.is_empty());
    let idle = card_model("  enabled  ", "no:50::A\n");
    assert!(idle.enabled);
    assert_eq!(idle.status, "Not connected");
    assert_eq!(idle.networks.len(), 1);
}
