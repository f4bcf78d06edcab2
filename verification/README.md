# mstatui

A terminal viewer for ListenBrainz listen statistics: recent plays and the top
artists, tracks and releases of a user, over a week, a month, a year or all
time.

- `src/` is the verified library (Verus):
  - `config.rs`: ranges, key bindings, colours (`#RRGGBB`), the scrobbler
    credentials format, and how the configuration file, the environment and
    the credentials combine into the settings;
  - `api.rs`: the ListenBrainz records and request paths, and what is kept of
    each reply;
  - `app.rs`: the interface state, navigation, key handling and refreshes;
  - `ui.rs`: the texts of the interface (relative times, totals, ranks, bars,
    help line);
  - `text.rs`: character-level helpers (decimal notation, trimming, padding).
- `app/` is the program around it: terminal, network, files, JSON and TOML.
- `tests/` exercises the library on concrete values.
