use velo_shell::volume::{
    adjusted_volume, clamp_percent, icon_name, is_muted, list_sinks, mute_icon, parse_volume,
    scroll_delta, sink_input_ids, sink_rows, volume_argument, volume_label, STEP,
};

#[test]
fn icons_by_level() {
    assert_eq!(icon_name(50, true), "audio-volume-muted-symbolic");
    assert_eq!(icon_name(0, false), "audio-volume-muted-symbolic");
    assert_eq!(icon_name(32, false), "audio-volume-low-symbolic");
    assert_eq!(icon_name(33, false), "audio-volume-medium-symbolic");
    assert_eq!(icon_name(65, false), "audio-volume-medium-symbolic");
    assert_eq!(icon_name(66, false), "audio-volume-high-symbolic");
    assert_eq!(mute_icon(true), "audio-volume-muted-symbolic");
    assert_eq!(mute_icon(false), "audio-volume-high-symbolic");
}

#[test]
fn labels() {
    assert_eq!(volume_label(42, false), "42%");
    assert_eq!(volume_label(42, true), "Muted");
}

#[test]
fn volume_parses_first_percent_word() {
    let out = "Volume: front-left: 42597 /  65% / -11.23 dB,   front-right: 42597 /  70% / -11.23 dB\n";
    assert_eq!(parse_volume(out), 65);
    assert_eq!(parse_volume("Volume: x% 50%"), 0);
    assert_eq!(parse_volume("nothing here"), 0);
    assert_eq!(parse_volume(""), 0);
    assert_eq!(parse_volume(&volume_label(87, false)), 87);
}

#[test]
fn mute_state() {
    assert!(is_muted("Mute: yes\n"));
    assert!(!is_muted("Mute: no\n"));
}

#[test]
fn requested_levels_are_clamped() {
    assert_eq!(clamp_percent(-3), 0);
    assert_eq!(clamp_percent(150), 100);
    assert_eq!(clamp_percent(40), 40);
    assert_eq!(volume_argument(105), "100%");
    assert_eq!(volume_argument(-1), "0%");
    assert_eq!(volume_argument(33), "33%");
    assert_eq!(adjusted_volume(98, STEP), 100);
    assert_eq!(adjusted_volume(3, -STEP), 0);
    assert_eq!(adjusted_volume(50, STEP), 55);
    assert_eq!(adjusted_volume(4294967295, STEP), 4);
    assert_eq!(scroll_delta(true), 5);
    assert_eq!(scroll_delta(false), -5);
}

#[test]
fn sinks_are_listed_with_the_default_marked() {
    let list = "Sink #0\n\tState: SUSPENDED\n\tName: alsa_output.hdmi\n\tDescription: HDMI Audio\n\
                Sink #1\n\tName: alsa_output.analog\n\tDescription: Speakers\n\
                \tDescription: stray\n\tName: dangling\n";
    let sinks = list_sinks(list);
    assert_eq!(
        sinks,
        vec![
            ("alsa_output.hdmi".to_string(), "HDMI Audio".to_string()),
            ("alsa_output.analog".to_string(), "Speakers".to_string()),
        ]
    );
    let rows = sink_rows("alsa_output.analog\n", list);
    let active: Vec<bool> = rows.iter().map(|r| r.active).collect();
    assert_eq!(active, vec![false, true]);
    assert_eq!(rows[1].description, "Speakers");
}

#[test]
fn sink_input_ids_are_first_words() {
    let out = "12\tprotocol-native.c\tPipeWire\n\n  47 x y\n";
    assert_eq!(sink_input_ids(out), vec!["12".to_string(), "47".to_string()]);
}
