//! The vertex layout types under their second module path; the model shader
//! layouts name them from here.
pub use crate::buffers::{BufferElement, BufferLayout, ShaderDataType};
