# lumaway

The verified core of LumaWay, an ambient-light sync engine for Linux Wayland that streams
screen colors to a Hue bridge's entertainment area.

- `src/` is the library, written in Verus and proved against its contracts. It holds the
  settings files and their migration, the stream message encoding,
  the DTLS target policy, TLS certificate pins, bridge replies and discovery, the capture
  averages and black-bar detection, the sync schedule and its statistics, color smoothing,
  the doctor's findings, and the decisions of the desktop window (engine supervision, saved
  settings, status texts).
- `tests/` runs the library on concrete values.
- `app/` is the `lumaway` command line around it: files, environment, HTTPS (reqwest with a
  rustls pin verifier), DTLS (OpenSSL) and printing. The screen capture commands (GStreamer) and
  the GTK window are not part of this crate; their decisions are in the library. Translations
  come from gettext in `app/` and reach the library as a `Catalog`.
