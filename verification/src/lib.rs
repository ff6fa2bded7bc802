//! Game logic of a Bomberman clone: tile animations, tilesets and arena maps,
//! player controls and movement stacks, asset storage and the game state stack.
pub mod object_groups;
pub mod players;
pub mod tiles;
pub mod utils;
pub mod game_states;
pub mod arenas;
