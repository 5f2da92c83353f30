use gouda::buffers::{BufferElement, BufferLayout, ShaderDataType};
use gouda::shader_lib::{
    basic_shader_layout, imgui_shader_layout, obj_model_shader_layout, quad_shader_layout,
};

#[test]
fn data_type_sizes() {
    let all = [
        (ShaderDataType::Float, 4),
        (ShaderDataType::Float2, 8),
        (ShaderDataType::Float3, 12),
        (ShaderDataType::Float4, 16),
        (ShaderDataType::Int, 4),
        (ShaderDataType::Int2, 8),
        (ShaderDataType::Int3, 12),
        (ShaderDataType::Int4, 16),
    ];
    for (t, size) in all.iter() {
        assert_eq!(t.size(), *size);
    }
}

#[test]
fn elements_start_unplaced() {
    let e = BufferElement::new("uv", ShaderDataType::Float2);
    assert_eq!((e.name, e.offset, e.size, e.normalized), ("uv", 0, 8, false));
    let n = BufferElement::new_normalized("col", ShaderDataType::Int4);
    assert_eq!((n.name, n.offset, n.size, n.normalized), ("col", 0, 16, true));
}

#[test]
fn layout_places_attributes_back_to_back() {
    let layout = BufferLayout::new(vec![
        BufferElement::new("a", ShaderDataType::Float),
        BufferElement::new_normalized("b", ShaderDataType::Int3),
        BufferElement::new("c", ShaderDataType::Float4),
    ]);
    let offsets: Vec<u32> = layout.elements.iter().map(|e| e.offset).collect();
    assert_eq!(offsets, vec![0, 4, 16]);
    assert_eq!(layout.stride, 32);
    assert!(layout.elements[1].normalized);
    let empty = BufferLayout::new(vec![]);
    assert_eq!(empty.stride, 0);
}

#[test]
fn built_in_shader_layouts() {
    let basic = basic_shader_layout();
    assert_eq!(basic.stride, 28);
    assert_eq!(basic.elements[1].name, "COLOR");
    assert_eq!(basic.elements[1].offset, 12);
    let imgui = imgui_shader_layout();
    assert_eq!(imgui.stride, 32);
    assert_eq!(
        imgui.elements.iter().map(|e| (e.name, e.offset)).collect::<Vec<_>>(),
        vec![("pos", 0), ("uv", 8), ("col", 16)]
    );
    let model = obj_model_shader_layout();
    assert_eq!(model.stride, 36);
    assert_eq!(model.elements[2].name, "NORMAL");
    assert_eq!(model.elements[2].offset, 24);
    let quad = quad_shader_layout();
    assert_eq!(quad.stride, 12);
    assert_eq!(quad.elements.len(), 1);
}
