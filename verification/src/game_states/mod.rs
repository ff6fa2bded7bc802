//! Game states: the play state's components and systems, and the stack of
//! game states with the routing of input events.
pub mod components;
pub mod entities;
pub mod game_state_builder;
pub mod map;
pub mod play_state;
pub mod state_manager;
pub mod systems;
