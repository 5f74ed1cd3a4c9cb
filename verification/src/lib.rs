//! Rules and state of a catacombs-style dungeon: the room grid and its
//! layout string, room shapes and rotations, doors and keys, the player
//! inventory, puzzles, crushers and the start-of-run countdown.

pub mod geometry;
pub mod room;
pub mod room_data;
pub mod rng;
pub mod grid;
pub mod door;
pub mod door_templates;
pub mod layout;
pub mod dungeon;
pub mod neighbours;
pub mod inventory;
pub mod items;
pub mod menu;
pub mod crusher;
pub mod text;
pub mod dungeon_state;
pub mod teleport_maze;
pub mod ice_fill;
pub mod room_loading;
pub mod block_data;
pub mod loading;
pub mod sidebar;
pub mod three_weirdos;
pub mod presence;
pub mod abilities;
pub mod secrets;
pub mod entities;
