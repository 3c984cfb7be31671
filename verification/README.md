# purpy

The game logic of the purpy platformer, verified with Verus.

`src/` is the library: fixed-point geometry, switches, properties and the
map format, the tile map with its collision and drawing rules, platforms,
doors, stars and warps, the player's movement state machine, levels,
menus, the level chooser and the stack of scenes, input mapping and
recording, the in-memory asset archive, and the texture-atlas layout.
Every function there carries a contract that Verus proves.

`app/` is the program around it: command-line options, reading files and
archives from disk, parsing XML into the library's element types, the
frame loop, and the asset tools (`package`, `atlas`).

`tests/` runs the library on concrete values.
