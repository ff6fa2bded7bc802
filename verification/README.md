# bomberman

The logic of a Bomberman clone, verified with Verus, and the program around it.

- `src/` is the library: tile animations (frames shown for their durations,
  played once or in a loop), tilesets and where each tile's picture lies in a
  spritesheet, the arena map (player spawn points, soft blocks, shared tile
  animations), player identities, controls and the stack of held movement
  directions, the play state's entities, how players and bombs enter, and
  the systems that control, turn and animate them, asset storage, game state builders and the loading of
  their assets, the stack of game states and the routing of input events.
  Time passes in whole microseconds.
- `app/` is the program: the window and event loop, loading of tile maps and
  tilesets from files, textures, the physics world, drawing, and the
  conversions between these and the library's values.
- `tests/` exercise the library on concrete values.
