# manytris

The game logic of a multiplayer falling-block puzzle game and the search of its playing bot,
written in Verus with their contracts proved.

Library (`src/`):

- `consts`, `shapes`: the field dimensions and the seven shapes.
- `tetromino`: a shape, its rotation state and the bottom-left corner of its bounding box.
  Pieces spawn at the top of the visible field; rotating turns the bounding box a quarter turn
  and tries the horizontal kicks 0, -1, +1, -2, +2 in that order.
- `field`: the settled blocks, line clearing, garbage rows, shadows and packing into a bitmap;
  `bitmap_field`: the packed occupancy map.
- `upcoming`, `shape_bag`: the queue of coming shapes and the seven-shape bag that fills it.
- `game_state`: a game, driven by batches of tick mutations; its abstract model and the step
  function every mutation follows.
- `input`, `progress`: the mutations an input asks for, and the level progression.
- `bot`: the placements the bot searches, their evaluation on the processor, the scoring of
  fields and the reconstruction of the best sequence of moves.
- `proto`: the messages of the game-server manager.

`app/` holds a bot demo: it scores search results with floating-point weights, picks moves and
plays games, and it holds the serde encodings of the manager messages.
