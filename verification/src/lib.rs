//! Velo Shell's verified core: the decisions of a `waybar`-style status bar
//! for the niri compositor. Each module reads what a system tool reports
//! (`nmcli`, `bluetoothctl`, `pactl`, `playerctl`, `/proc`, `/sys`, niri's
//! event stream) into plain values and says what the bar shows for them;
//! the GTK front end in `app/` runs the tools and draws the widgets.
#[allow(unused_imports)]
use vstd::prelude::*;

pub mod battery;
pub mod bluetooth;
pub mod card;
pub mod media;
pub mod network;
pub mod order;
pub mod power;
pub mod system;
pub mod text;
pub mod volume;
pub mod workspaces;
