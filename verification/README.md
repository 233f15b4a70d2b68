# fenestre

The state and policy of a tiling window manager for River, verified with
Verus: a BSP layout tree per output, focus bookkeeping, window rules,
pointer-driven move and resize, the manage and render sequences that diff
the desired scene against what the compositor was last told, and the
configuration schema with its validation and merging over the built-in
defaults.

Layout:

- `src/` — the verified library. `tree.rs`/`layout.rs` hold the layout
  tree and its laws (`tree_laws.rs`); `wm.rs` the window manager state and
  its event handling (laws in `wm_laws.rs`); `commands.rs` the user
  commands; `scene.rs`, `scene_state.rs` and `sequences.rs` the scene and
  the requests derived from it; `config.rs`, `schema.rs`, `parser.rs`,
  `keysym.rs` and `defaults.rs` the configuration; `rules.rs` and
  `window_rules.rs` window rules (regular expressions go through the
  `regex` crate); `snapshot.rs` what clients may query.
- `tests/` — tests run against the compiled library.
- `app/` — the program: reading TOML and Lua configuration files,
  resolving keysym names through xkbcommon, and the query socket.

Ratios (default window size, resize steps) are kept in permyriad;
configuration files give them as floats, which the program converts.
