//! Descriptions of the uniforms a shader takes.
use vstd::prelude::*;

verus! {

/// The type of one shader uniform.
#[derive(Debug, Clone, Copy, PartialEq, Eq, Structural)]
pub enum UniformType {
    Mat4,
    Float4,
    Float3,
    Float2,
    Float,
}

/// One named uniform of a shader.
pub struct UniformSpec {
    name: &'static str,
    uniform_type: UniformType,
}

/// The uniforms of one shader stage, in binding order.
pub struct ShaderUniformSpec {
    pub uniforms: Vec<UniformSpec>,
}

} // verus!
