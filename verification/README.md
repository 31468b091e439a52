# battleship

A two-player battleship game for the terminal. The library in `src/` holds
the game's rules and state, each operation with a contract that Verus proves:

- `game_obj`: cells, ships (moving and turning them) and a player's grid,
  with the picture of the grid as coloured squares;
- `game_grid`: the first, simpler board with byte coordinates;
- `game`: the game itself, a state machine from key presses to the next
  state and what the front end has to do;
- `laws`: properties across operations (turning twice restores a ship,
  opposite moves cancel, keys keep the fleet on the board, ...);
- `colors`: the terminal colours, built by the terminal toolkit.

`app/` is the terminal front end: it connects to the opponent, turns terminal
events into the game's inputs, carries out the effects, and paints the grids.
