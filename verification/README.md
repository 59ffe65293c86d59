# everpuzzle

A Tetris Attack / Pokémon Puzzle style puzzle game. The game logic is a library written
in Verus: every function in `src/` carries a contract that Verus proves.

## Layout

- `src/helpers`: grid constants, integer vectors and the index and coordinate conversions,
  the walks over the grid.
- `src/scripts`: the game itself: blocks and their state machine, garbage and its children,
  the grid with its generation, swaps, falls, hangs, clears, combos and chains, the push of
  the grid, the cursor with the computer player, and the frame of all grids together
  (`versus.rs`), where combos send garbage to the other grids.
- `src/engine`: input frame counting, button logic of the debug interface, the decoding of
  the texture atlas: the bytes are checked against the PNG layout the decoder handles (their
  image data inflated with `miniz_oxide`), then decoded through `png_pong`.
- `src/components`, `src/block_states`: garbage heads, key maps and playfield bookkeeping.
- `tests/`: the tests of the library.
- `app/`: the window, rendering, keyboard, mouse and gamepad input around the library
  (miniquad, ultraviolet, png_pong, gilrs).

Random numbers come from `oorandom`'s PCG generator; the library calls it through two
functions in `src/scripts/rng.rs` whose contracts name what the generator returns.
