use velo_shell::media::{card_view, module_view, now_playing, play_icon, scroll_command};

#[test]
fn now_playing_splits_three_fields() {
    let n = now_playing(Some("Playing|Artist|Title | with bar\n")).unwrap();
    assert_eq!((n.status.as_str(), n.artist.as_str(), n.title.as_str()), ("Playing", "Artist", "Title | with bar"));
    let n = now_playing(Some("Paused")).unwrap();
    assert_eq!((n.status.as_str(), n.artist.as_str(), n.title.as_str()), ("Paused", "", ""));
    assert!(now_playing(Some("  \n")).is_none());
    assert!(now_playing(None).is_none());
}

#[test]
fn bar_label_and_play_state() {
    let v = module_view(&now_playing(Some("Playing|Band|Song")).unwrap());
    assert_eq!(v.label, "Band \u{2014} Song");
    assert!(v.playing);
    let v = module_view(&now_playing(Some("Paused||Song")).unwrap());
    assert_eq!(v.label, "Song");
    assert!(!v.playing);
}

#[test]
fn card_contents() {
    let c = card_view(&now_playing(Some("Playing|Band|")));
    assert_eq!(c.title, "Nothing playing");
    assert!(c.artist_visible);
    assert_eq!(c.artist, "Band");
    assert_eq!(c.playing, Some(true));
    let c = card_view(&None);
    assert_eq!(c.title, "Nothing playing");
    assert!(!c.artist_visible);
    assert_eq!(c.playing, None);
    assert_eq!(play_icon(true), "media-playback-pause-symbolic");
    assert_eq!(play_icon(false), "media-playback-start-symbolic");
    assert_eq!(scroll_command(true), "next");
    assert_eq!(scroll_command(false), "previous");
}
