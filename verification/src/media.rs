//! Media module: the now-playing track as `playerctl` reports it, and what
//! the bar and the transport card show for it.
use vstd::prelude::*;

use crate::text::{
    append_chars, chars_eq, chars_of, splitn, splitn_chars, string_from, string_of, trim, trim_chars,
};

verus! {

/// The active player's `(status, artist, title)`.
pub struct NowPlaying {
    pub status: String,
    pub artist: String,
    pub title: String,
}

/// What the bar shows while a player is active.
pub struct ModuleView {
    pub label: String,
    pub playing: bool,
}

/// What the card shows; `playing` is `None` when there is no player (the
/// play button keeps its icon).
pub struct CardView {
    pub title: String,
    pub artist: String,
    pub artist_visible: bool,
    pub playing: Option<bool>,
}

// ───────────────────────── specifications ─────────────────────────

/// The `status|artist|title` output of `playerctl metadata --format`, when
/// the command succeeded with non-blank output; missing fields are empty.
pub open spec fn now_playing_spec(stdout: Option<Seq<char>>) -> Option<(Seq<char>, Seq<char>, Seq<char>)> {
    match stdout {
        Some(out) => {
            let raw = trim(out);
            if raw.len() == 0 {
                None
            } else {
                let p = splitn(raw, 3, '|');
                Some((p[0], if p.len() > 1 { p[1] } else { seq![] }, if p.len() > 2 { p[2] } else { seq![] }))
            }
        },
        None => None,
    }
}

/// The bar's label: `artist — title`, or the title alone without an artist.
pub open spec fn label_spec(artist: Seq<char>, title: Seq<char>) -> Seq<char> {
    if artist.len() == 0 {
        title
    } else {
        artist + " \u{2014} "@ + title
    }
}

// ───────────────────────── executable parts ─────────────────────────

/// The now-playing triple from the output of
/// `playerctl metadata --format {{status}}|{{artist}}|{{title}}` (`None`
/// when the command failed).
pub fn now_playing(stdout: Option<&str>) -> (r: Option<NowPlaying>)
    ensures
        match r {
            Some(n) => now_playing_spec(match stdout { Some(s) => Some(s@), None => None }) == Some(
                (n.status@, n.artist@, n.title@),
            ),
            None => now_playing_spec(match stdout { Some(s) => Some(s@), None => None }) is None,
        },
{
    match stdout {
        Some(out) => {
            let raw = trim_chars(&chars_of(out));
            if raw.len() == 0 {
                return None;
            }
            let p = splitn_chars(&raw, 3, '|');
            let ghost pv = p.deep_view();
            proof {
                assert(splitn(raw@, 3, '|').len() >= 1);
            }
            assert(pv[0] == p@[0]@);
            let status = string_of(&p[0]);
            let artist = if p.len() > 1 {
                assert(pv[1] == p@[1]@);
                string_of(&p[1])
            } else {
                String::new()
            };
            let title = if p.len() > 2 {
                assert(pv[2] == p@[2]@);
                string_of(&p[2])
            } else {
                String::new()
            };
            Some(NowPlaying { status, artist, title })
        },
        None => None,
    }
}

fn is_playing(n: &NowPlaying) -> (r: bool)
    ensures
        r == (n.status@ == "Playing"@),
{
    chars_eq(&chars_of(n.status.as_str()), &chars_of("Playing"))
}

/// What the bar shows for an active player.
pub fn module_view(n: &NowPlaying) -> (v: ModuleView)
    ensures
        v.label@ == label_spec(n.artist@, n.title@),
        v.playing == (n.status@ == "Playing"@),
{
    let label = if n.artist.as_str().is_empty() {
        n.title.clone()
    } else {
        let mut t = chars_of(n.artist.as_str());
        append_chars(&mut t, &chars_of(" \u{2014} "));
        append_chars(&mut t, &chars_of(n.title.as_str()));
        string_of(&t)
    };
    ModuleView { label, playing: is_playing(n) }
}

/// What the card shows for the player, if any.
pub fn card_view(n: &Option<NowPlaying>) -> (v: CardView)
    ensures
        match n {
            Some(n) => {
                &&& v.title@ == (if n.title@.len() == 0 { "Nothing playing"@ } else { n.title@ })
                &&& v.artist@ == n.artist@
                &&& v.artist_visible == (n.artist@.len() > 0)
                &&& v.playing == Some(n.status@ == "Playing"@)
            },
            None => v.title@ == "Nothing playing"@ && !v.artist_visible && v.playing is None,
        },
{
    match n {
        Some(n) => CardView {
            title: if n.title.as_str().is_empty() {
                string_from("Nothing playing")
            } else {
                n.title.clone()
            },
            artist: n.artist.clone(),
            artist_visible: !n.artist.as_str().is_empty(),
            playing: Some(is_playing(n)),
        },
        None => CardView {
            title: string_from("Nothing playing"),
            artist: String::new(),
            artist_visible: false,
            playing: None,
        },
    }
}

/// The play button's icon: pause while playing, play otherwise.
pub fn play_icon(playing: bool) -> (r: &'static str)
    ensures
        r@ == (if playing { "media-playback-pause-symbolic"@ } else { "media-playback-start-symbolic"@ }),
{
    if playing {
        "media-playback-pause-symbolic"
    } else {
        "media-playback-start-symbolic"
    }
}

/// The `playerctl` command a scroll sends: up skips ahead, down goes back.
pub fn scroll_command(up: bool) -> (r: &'static str)
    ensures
        r@ == (if up { "next"@ } else { "previous"@ }),
{
    if up {
        "next"
    } else {
        "previous"
    }
}


/// The bar's label always ends with the title; with an artist it starts with
/// the artist and a separator, without one it is the title alone.
pub proof fn law_media_label(artist: Seq<char>, title: Seq<char>)
    ensures
        ({
            let l = label_spec(artist, title);
            &&& l.len() >= title.len()
            &&& l.skip(l.len() - title.len()) == title
            &&& artist.len() == 0 ==> l == title
            &&& artist.len() > 0 ==> l.take(artist.len() as int) == artist && l.len() == artist.len() + 3
                + title.len()
        }),
{
    reveal_strlit(" \u{2014} ");
    let l = label_spec(artist, title);
    if artist.len() > 0 {
        assert(l.skip(l.len() - title.len()) =~= title);
        assert(l.take(artist.len() as int) =~= artist);
    } else {
        assert(l.skip(0) =~= l);
    }
}
}
