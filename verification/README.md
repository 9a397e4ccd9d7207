# openwa_core

Verified core of an engine-side toolkit for Worms Armageddon: file formats,
game-state layouts and the decisions of the renderer, each stated as a
Verus contract and proved.

## Layout

- `src/` — the library:
  - formats: `scheme` (+ `scheme_laws`), `wgt`, `spr`, `layer_sprite`,
    `gfx_dir`, `layout`, `bytes`, `cp1252`;
  - rendering: `draw`, `display`, `tiled`, `sprite_blit`, `sprite_op`,
    `font`, `palette`, `frame_cache`, `render_queue`, `pixel_grid`,
    `bit_grid`, `trig`, `bungee_trail`;
  - game state: `task`, `weapon`, `fixed`, `vec2`;
  - debugging: `debug_proto` (wire framing), `debug_cli` (address
    expressions, hex dumps), `snapshot`, `log`, `capture_view`,
    `names`, `vtable_layout`.
- `tests/` — executable tests of the library.
- `app/` — the debug command-line client: argument handling, the TCP
  connection, MessagePack encoding, and file access.

Functions that act on the running game (surfaces, the game's allocator,
calls into its code) take the game state they read as plain values here
and return what is to be drawn, allocated or changed.
