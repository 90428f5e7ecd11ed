# rusty_bridge

The rules of a four-seat contract bridge table, verified with Verus.

- `src/` is the library: cards and seats, the auction (`auction`), the play
  of the tricks (`trick`, `play`), the score (`scoring`), the table's step
  function that the server loop calls (`engine`), dealing (`deck`, `game`),
  seating (`lobby`), account kinds (`account`) and the display helpers of the
  client (`display`). Each public function states its result over a
  mathematical model of the deal (`GameModel` and friends); the laws of the
  game stand beside them as proof functions.
- `app/` is the server around it: HTTP and WebSocket handlers, the database,
  and the JSON copies of the library's types.
- `tests/` runs the library on concrete deals.
