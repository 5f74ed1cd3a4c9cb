# dungeon_sim

The rules of a catacombs-style dungeon run, written in Verus with their
contracts proved: reading a dungeon layout string into rooms, doors and the
room grid; room shapes, rotations and placement in the world; doors, keys and
door templates; the player inventory and the ready-up menu; the start-of-run
countdown and the sidebar; puzzles (teleport maze, ice fill, three weirdos);
crushers; secrets; and the dungeon items.

- `src/` is the verified library. Randomness comes from `rand` and random
  UUIDs from `uuid`, each behind a small trusted wrapper in `src/rng.rs`.
- `tests/` runs the library on concrete values.
- `app/` is a small program around the library: it reads a data directory
  (layouts, door positions, stored rooms as JSON, crushers), picks a layout
  with a seed, builds the dungeon and its rooms, readies a player and counts
  the run in, printing the chat and the sidebar.

The program takes the data directory (default `DungeonData`) and a seed
(default 13687989479541743623) as its two arguments.
