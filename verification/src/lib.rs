//! Gouda engine core: generational indices, image decoding, vertex layouts,
//! input handling and the rules of the sample games.

pub mod buffers;
pub mod buffers2;
pub mod engine;
pub mod flappy;
pub mod font_library;
pub mod genindex;
pub mod images;
pub mod input;
pub mod model;
pub mod mouse_capture;
pub mod names;
pub mod perlin;
pub mod sandbox;
pub mod shader_lib;
pub mod shaders;
