use ice_spar::bindgroup::{
    camera_layout_entries, material_layout_entries, texture_layout_entries, BindingKind, LayoutEntry,
    ShaderStage,
};
use ice_spar::buffer_layout::{
    vertex_buffer_layout_vi, BufferLayoutIS, VertexAttribute, VertexFormat, VertexStepMode, VERTEX_STRIDE,
};

#[test]
fn vertex_layout_offsets() {
    let l = vertex_buffer_layout_vi();
    assert_eq!(l.array_stride, 56);
    assert_eq!(VERTEX_STRIDE, 14 * 4);
    assert_eq!(l.step_mode, VertexStepMode::Vertex);
    let offsets: Vec<u64> = l.attributes.iter().map(|a| a.offset).collect();
    assert_eq!(offsets, vec![0, 12, 20, 32, 44]);
    let locations: Vec<u32> = l.attributes.iter().map(|a| a.shader_location).collect();
    assert_eq!(locations, vec![0, 1, 2, 3, 4]);
    assert_eq!(l.attributes[1].format, VertexFormat::Float32x2);
    let last = l.attributes[4];
    assert_eq!(last.offset + last.format.size(), l.array_stride);
    for w in l.attributes.windows(2) {
        assert_eq!(w[0].offset + w[0].format.size(), w[1].offset);
    }
}

#[test]
fn format_sizes() {
    assert_eq!(VertexFormat::Float32x2.size(), 8);
    assert_eq!(VertexFormat::Float32x3.size(), 12);
    assert_eq!(VertexFormat::Float32x4.size(), 16);
}

#[test]
fn custom_buffer_layout() {
    let attrs = vec![VertexAttribute { format: VertexFormat::Float32x4, offset: 0, shader_location: 0 }];
    let l = BufferLayoutIS::new(attrs.clone(), 16);
    assert_eq!(l.array_stride, 16);
    assert_eq!(l.attributes, attrs);
    assert_eq!(l.step_mode, VertexStepMode::Vertex);
}

#[test]
fn camera_layout() {
    let e = camera_layout_entries();
    assert_eq!(
        e,
        vec![
            LayoutEntry { binding: 0, visibility: ShaderStage::Vertex, kind: BindingKind::UniformBuffer },
            LayoutEntry { binding: 1, visibility: ShaderStage::Fragment, kind: BindingKind::UniformBuffer },
        ]
    );
}

#[test]
fn texture_layout() {
    let kinds: Vec<BindingKind> = texture_layout_entries().iter().map(|e| e.kind).collect();
    assert_eq!(
        kinds,
        vec![BindingKind::FilterableTexture2d, BindingKind::FilteringSampler, BindingKind::UniformBuffer]
    );
}

#[test]
fn material_layout() {
    let e = material_layout_entries();
    assert_eq!(e.len(), 8);
    for (i, entry) in e.iter().enumerate() {
        assert_eq!(entry.binding, i as u32);
        assert_eq!(entry.visibility, ShaderStage::Fragment);
    }
    assert_eq!(e[1].kind, BindingKind::FilteringSampler);
    assert_eq!(e[7].kind, BindingKind::UniformBuffer);
    assert_eq!(e[0].kind, BindingKind::FilterableTexture2d);
    assert_eq!(e[6].kind, BindingKind::FilterableTexture2d);
}
