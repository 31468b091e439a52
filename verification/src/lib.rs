//! The rules and state of a two-player battleship game: ships on a ten by ten
//! grid, the shots that were fired at it, and the game's turn state machine.
//! Drawing and networking stay with the terminal front end.

pub mod colors;
pub mod game;
pub mod game_grid;
pub mod game_obj;
pub mod laws;
