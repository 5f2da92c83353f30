//! Rules of the tower-defence sample game.
pub mod hearth;
pub mod monster;
pub mod spawners;
pub mod supplies;
