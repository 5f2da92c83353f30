//! Vertex layouts of the built-in shaders.
use vstd::prelude::*;
use crate::buffers::{BufferElement, BufferLayout, ShaderDataType, data_type_size, total_size};
use crate::names::{find, lookup, register, registered};

verus! {

/// The shaders of a renderer, by name.
#[derive(Debug)]
pub struct ShaderLibrary<S> {
    shaders: Vec<(&'static str, S)>,
}

impl<S> ShaderLibrary<S> {
    /// The shader registered under `name`, if any.
    pub closed spec fn shader(&self, name: Seq<char>) -> Option<S> {
        lookup(self.shaders@, name)
    }

    /// A library with no shaders.
    pub fn new() -> (r: ShaderLibrary<S>)
        ensures
            forall|name: Seq<char>| #[trigger] r.shader(name) is None,
    {
        ShaderLibrary { shaders: Vec::new() }
    }

    /// Registers `shader` under `name`, replacing any shader of that name.
    pub fn add(&mut self, name: &'static str, shader: S)
        ensures
            forall|k: Seq<char>|
                #[trigger] final(self).shader(k) == if k == name@ {
                    Some(shader)
                } else {
                    old(self).shader(k)
                },
    {
        register(&mut self.shaders, name, shader);
        assert(registered(old(self).shaders@, self.shaders@, name@, shader));
    }

    /// The shader registered under `name`, if any.
    pub fn get(&self, name: &'static str) -> (r: Option<&S>)
        ensures
            match r {
                Some(s) => self.shader(name@) == Some(*s),
                None => self.shader(name@) is None,
            },
    {
        return find(&self.shaders, name);
    }
}

/// `e` is the attribute `name` of type `t`, not normalized, at byte `offset`.
pub open spec fn is_attribute(e: BufferElement, name: &str, t: ShaderDataType, offset: u32) -> bool {
    &&& e.name@ == name@
    &&& e.data_type == t
    &&& e.size == data_type_size(t)
    &&& e.offset == offset
    &&& !e.normalized
}

proof fn lemma_total_size_two(s: Seq<BufferElement>)
    requires
        s.len() == 2,
    ensures
        total_size(s) == s[0].size + s[1].size,
{
    reveal_with_fuel(total_size, 3);
    assert(s.drop_last().drop_last() =~= Seq::<BufferElement>::empty());
}

proof fn lemma_total_size_three(s: Seq<BufferElement>)
    requires
        s.len() == 3,
    ensures
        total_size(s) == s[0].size + s[1].size + s[2].size,
        total_size(s.take(1)) == s[0].size,
        total_size(s.take(2)) == s[0].size + s[1].size,
{
    reveal_with_fuel(total_size, 2);
    lemma_total_size_two(s.drop_last());
    assert(s.take(2) =~= s.drop_last());
    assert(s.take(1).drop_last() =~= Seq::<BufferElement>::empty());
    assert(s.take(1).last() == s[0]);
}

/// Layout of the flat-colour shader: position, then colour.
pub fn basic_shader_layout() -> (r: BufferLayout)
    ensures
        r.elements@.len() == 2,
        is_attribute(r.elements@[0], "POSITION", ShaderDataType::Float3, 0),
        is_attribute(r.elements@[1], "COLOR", ShaderDataType::Float4, 12),
        r.stride == 28,
{
    let elements = vec![
        BufferElement::new("POSITION", ShaderDataType::Float3),
        BufferElement::new("COLOR", ShaderDataType::Float4),
    ];
    proof {
        lemma_total_size_two(elements@);
        assert(elements@.take(1).drop_last() =~= Seq::<BufferElement>::empty());
        assert(elements@.take(0) =~= Seq::<BufferElement>::empty());
    }
    return BufferLayout::new(elements);
}

/// Layout of the immediate-mode GUI shader: position, texture coordinate,
/// colour.
pub fn imgui_shader_layout() -> (r: BufferLayout)
    ensures
        r.elements@.len() == 3,
        is_attribute(r.elements@[0], "pos", ShaderDataType::Float2, 0),
        is_attribute(r.elements@[1], "uv", ShaderDataType::Float2, 8),
        is_attribute(r.elements@[2], "col", ShaderDataType::Float4, 16),
        r.stride == 32,
{
    let elements = vec![
        BufferElement::new("pos", ShaderDataType::Float2),
        BufferElement::new("uv", ShaderDataType::Float2),
        BufferElement::new("col", ShaderDataType::Float4),
    ];
    proof {
        lemma_total_size_three(elements@);
        assert(elements@.take(0) =~= Seq::<BufferElement>::empty());
    }
    return BufferLayout::new(elements);
}

/// Layout of the model shader: position, texture coordinate, normal.
pub fn obj_model_shader_layout() -> (r: crate::buffers2::BufferLayout)
    ensures
        r.elements@.len() == 3,
        is_attribute(r.elements@[0], "POSITION", ShaderDataType::Float4, 0),
        is_attribute(r.elements@[1], "TEXCOORD", ShaderDataType::Float2, 16),
        is_attribute(r.elements@[2], "NORMAL", ShaderDataType::Float3, 24),
        r.stride == 36,
{
    let elements = vec![
        crate::buffers2::BufferElement::new("POSITION", ShaderDataType::Float4),
        crate::buffers2::BufferElement::new("TEXCOORD", ShaderDataType::Float2),
        crate::buffers2::BufferElement::new("NORMAL", ShaderDataType::Float3),
    ];
    proof {
        lemma_total_size_three(elements@);
        assert(elements@.take(0) =~= Seq::<BufferElement>::empty());
    }
    return crate::buffers2::BufferLayout::new(elements);
}

/// Layout of the quad shader: position only.
pub fn quad_shader_layout() -> (r: BufferLayout)
    ensures
        r.elements@.len() == 1,
        is_attribute(r.elements@[0], "POSITION", ShaderDataType::Float3, 0),
        r.stride == 12,
{
    let elements = vec![BufferElement::new("POSITION", ShaderDataType::Float3)];
    proof {
        reveal_with_fuel(total_size, 2);
        assert(elements@.drop_last() =~= Seq::<BufferElement>::empty());
        assert(elements@.take(0) =~= Seq::<BufferElement>::empty());
    }
    return BufferLayout::new(elements);
}

} // verus!
