# richter

Verified core of a Quake client: the logic of the console, menus, string
tables, palettes, sounds, particles and the client's connection, with
contracts proved by Verus.

## Layout

- `src/` — the library, verified with Verus.
  - `console/` — command names and edges (`cmd`), the command and cvar
    registry (`registry`), console output and its on-screen history
    (`output`), glyph layout of console text (`layout`), and the trusted
    interface to `serde_lexpr` values and the `fxhash` name index
    (`outside`).
  - `menu/` — menus and their elements, with the laws they keep (`laws`).
  - `progs/` — the interpreter's string table, over `imstr` text and an
    `im` length cache (`outside`).
  - `client/` — console commands of the client, menu keys and input focus,
    and the connection: sign-on, server messages, end of a connection.
  - `render/` — texture data, render passes, palettes, UI overlays.
  - `sound.rs`, `particle.rs`, `capture.rs`, `startup.rs`, `text.rs`.
- `tests/` — tests run against the compiled library.
- `app/` — the program around the library: the console command loop,
  reading cvars into typed settings with serde, error messages, file
  loading and the floating-point parts (sound attenuation, slider values,
  animation timing).

## Collections

Menu elements are kept in a `Vec` rather than an `im::Vector`. A menu's
elements include its submenus, so the element type is recursive through
the collection; an outside collection type can only be declared to Verus
with its element type marked non-recursive, which such a menu cannot
satisfy. `Vec`, whose specification comes with Verus, allows it.
