use velo_shell::bluetooth::{card_model, device_icon, is_powered, parse_device_line, summary};

#[test]
fn device_lines_parse_into_mac_and_name() {
    assert_eq!(
        parse_device_line("Device AA:BB:CC:DD:EE:FF My Headphones"),
        Some(("AA:BB:CC:DD:EE:FF".to_string(), "My Headphones".to_string()))
    );
    assert_eq!(parse_device_line("Device AA:BB:CC:DD:EE:FF"), None);
    assert_eq!(parse_device_line("Controller AA:BB:CC:DD:EE:FF hci0"), None);
    assert_eq!(parse_device_line("Device AA: "), Some(("AA:".to_string(), "".to_string())));
}

#[test]
fn powered_state_from_show() {
    assert!(is_powered("Controller 00:11 (public)\n\tName: box\n\tPowered: yes\n"));
    assert!(!is_powered("Controller 00:11 (public)\n\tPowered: no\n"));
    assert!(!is_powered(""));
}

#[test]
fn summary_shows_first_connected_device() {
    let off = summary(false, "Device AA Phone\n");
    assert_eq!((off.icon.as_str(), off.label.as_str()), ("bluetooth-disabled-symbolic", "Off"));
    let on = summary(true, "garbage\nDevice AA Phone\nDevice BB Watch\n");
    assert_eq!((on.icon.as_str(), on.label.as_str()), ("bluetooth-active-symbolic", "Phone"));
    let none = summary(true, "");
    assert_eq!((none.icon.as_str(), none.label.as_str()), ("bluetooth-active-symbolic", "On"));
}

#[test]
fn card_lists_paired_devices_and_connected_names() {
    let connected = "Device BB Watch\nDevice AA Phone\n";
    let paired = "Device AA Phone\nDevice CC Speaker\nDevice BB Watch\n";
    let card = card_model(true, connected, paired);
    assert!(card.powered);
    assert_eq!(card.status, "Connected: Phone, Watch");
    let got: Vec<(String, String, bool)> =
        card.devices.iter().map(|d| (d.mac.clone(), d.name.clone(), d.connected)).collect();
    assert_eq!(
        got,
        vec![
            ("AA".to_string(), "Phone".to_string(), true),
            ("CC".to_string(), "Speaker".to_string(), false),
            ("BB".to_string(), "Watch".to_string(), true),
        ]
    );
}

#[test]
fn card_without_connections_or_power() {
    let card = card_model(true, "", "Device AA Phone\n");
    assert_eq!(card.status, "No devices connected");
    assert_eq!(card.devices.len(), 1);
    let off = card_model(false, "Device AA Phone", "Device AA Phone");
    assert_eq!(off.status, "Bluetooth is off");
    assert!(off.devices.is_empty());
    assert_eq!(device_icon(true), "bluetooth-active-symbolic");
    assert_eq!(device_icon(false), "bluetooth-symbolic");
}
