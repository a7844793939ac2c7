# Velo Shell

A `waybar`-style status bar for the niri compositor: workspace pills and the
focused window's title, a clock, CPU/RAM usage, network, Bluetooth, media,
volume, battery and a power menu, each with a drop-down card.

## Layout

- `src/` — the verified library (Verus). One module per bar module
  (`workspaces`, `network`, `bluetooth`, `volume`, `media`, `battery`,
  `system`, `power`, `card`), plus `text` (the string handling the parsers
  rely on: lines, fields, words, trimming, number parsing and printing, each
  specified over `Seq<char>`) and `order` (stable ordering by key). Every
  public function states what it returns in its contract; the `law_*` proof
  functions state the properties that span calls.
- `app/` — the GTK 4 / layer-shell front end: windows, widgets, timers,
  running `nmcli`, `pactl`, … and niri IPC, and decoding niri's JSON into the
  library's types.
- `tests/` — executable tests of the library on concrete inputs.
