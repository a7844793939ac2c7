use velo_shell::battery::{battery_icon, find_battery, module_view, reading, status_label, time_text};

#[test]
fn picks_first_battery_in_sorted_order() {
    let names: Vec<String> = ["AC", "BAT1", "hidpp_battery_0", "BAT0", "BATT"].iter().map(|s| s.to_string()).collect();
    assert_eq!(find_battery(&names), Some(3));
    let none: Vec<String> = ["AC", "ucsi-source-psy", "bat0"].iter().map(|s| s.to_string()).collect();
    assert_eq!(find_battery(&none), None);
    assert_eq!(find_battery(&Vec::new()), None);
    let names: Vec<String> = ["BAT10", "BAT2", "BAT1"].iter().map(|s| s.to_string()).collect();
    assert_eq!(find_battery(&names), Some(2));
}

#[test]
fn icons_by_charge() {
    assert_eq!(battery_icon(10, false), "battery-empty-symbolic");
    assert_eq!(battery_icon(11, true), "battery-low-charging-symbolic");
    assert_eq!(battery_icon(35, false), "battery-low-symbolic");
    assert_eq!(battery_icon(70, true), "battery-good-charging-symbolic");
    assert_eq!(battery_icon(71, false), "battery-full-symbolic");
    assert_eq!(battery_icon(100, true), "battery-full-charging-symbolic");
}

#[test]
fn reading_from_files() {
    let r = reading(Some("87\n"), Some("Charging\n"));
    assert_eq!(r.capacity, 87);
    assert_eq!(r.status, "Charging");
    assert!(r.charging);
    let r = reading(None, None);
    assert_eq!(r.capacity, 0);
    assert_eq!(r.status, "");
    assert!(!r.charging);
    let r = reading(Some("abc"), Some("Discharging"));
    assert_eq!(r.capacity, 0);
    assert!(!r.charging);
}

#[test]
fn bar_and_card_views() {
    let low = module_view(&reading(Some("15"), Some("Discharging")));
    assert_eq!(low.label, "15%");
    assert_eq!(low.icon, "battery-low-symbolic");
    assert!(low.low);
    let charging = module_view(&reading(Some("5"), Some("charging")));
    assert!(!charging.low);
    assert_eq!(charging.icon, "battery-empty-charging-symbolic");
    assert!(!module_view(&reading(Some("16"), Some("Discharging"))).low);
    assert_eq!(status_label(&reading(Some("5"), None)), "Unknown");
    assert_eq!(status_label(&reading(Some("5"), Some("Full"))), "Full");
}

#[test]
fn time_estimates() {
    assert_eq!(time_text(135, false), "Remaining 2h 15m");
    assert_eq!(time_text(59, true), "Full in 0h 59m");
    assert_eq!(time_text(0, false), "Remaining 0h 0m");
}
