use vstd::prelude::*;

verus! {

/// The format of one vertex attribute.
#[derive(Clone, Copy, PartialEq, Eq, Structural, Debug)]
pub enum VertexFormat {
    Float32x2,
    Float32x3,
    Float32x4,
}

/// Bytes taken by one attribute of the format.
pub open spec fn format_size(f: VertexFormat) -> u64 {
    match f {
        VertexFormat::Float32x2 => 8,
        VertexFormat::Float32x3 => 12,
        VertexFormat::Float32x4 => 16,
    }
}

impl VertexFormat {
    /// Bytes taken by one attribute of this format.
    pub fn size(&self) -> (n: u64)
        ensures
            n == format_size(*self),
    {
        match self {
            VertexFormat::Float32x2 => 8,
            VertexFormat::Float32x3 => 12,
            VertexFormat::Float32x4 => 16,
        }
    }
}

/// Whether a buffer advances per vertex or per instance.
#[derive(Clone, Copy, PartialEq, Eq, Structural, Debug)]
pub enum VertexStepMode {
    Vertex,
    Instance,
}

/// One attribute of a vertex: its format, its byte offset in the vertex and the
/// shader location it feeds.
#[derive(Clone, Copy, PartialEq, Eq, Structural, Debug)]
pub struct VertexAttribute {
    pub format: VertexFormat,
    pub offset: u64,
    pub shader_location: u32,
}

/// How a vertex buffer is laid out: the stride between vertices, the step mode and
/// the attributes of each vertex.
pub struct BufferLayoutIS {
    pub array_stride: u64,
    pub step_mode: VertexStepMode,
    pub attributes: Vec<VertexAttribute>,
}

impl BufferLayoutIS {
    /// A per-vertex layout with the given attributes and stride.
    pub fn new(vertex_attr: Vec<VertexAttribute>, len: u64) -> (r: Self)
        ensures
            r.array_stride == len,
            r.step_mode == VertexStepMode::Vertex,
            r.attributes@ == vertex_attr@,
    {
        BufferLayoutIS { array_stride: len, step_mode: VertexStepMode::Vertex, attributes: vertex_attr }
    }
}

/// Bytes of one vertex of the renderer: position, uv, normal, tangent, bitangent.
pub const VERTEX_STRIDE: u64 = 56;

/// The attributes of the renderer's vertex, in order.
pub open spec fn vi_attributes() -> Seq<VertexAttribute> {
    seq![
        VertexAttribute { format: VertexFormat::Float32x3, offset: 0, shader_location: 0 },
        VertexAttribute { format: VertexFormat::Float32x2, offset: 12, shader_location: 1 },
        VertexAttribute { format: VertexFormat::Float32x3, offset: 20, shader_location: 2 },
        VertexAttribute { format: VertexFormat::Float32x3, offset: 32, shader_location: 3 },
        VertexAttribute { format: VertexFormat::Float32x3, offset: 44, shader_location: 4 },
    ]
}

/// The layout of the renderer's vertex buffer: position (3 floats), uv (2),
/// normal (3), tangent (3) and bitangent (3) at shader locations 0 to 4.
pub fn vertex_buffer_layout_vi() -> (r: BufferLayoutIS)
    ensures
        r.array_stride == VERTEX_STRIDE,
        r.step_mode == VertexStepMode::Vertex,
        r.attributes@ == vi_attributes(),
{
    let mut attrs: Vec<VertexAttribute> = Vec::new();
    attrs.push(VertexAttribute { format: VertexFormat::Float32x3, offset: 0, shader_location: 0 });
    attrs.push(VertexAttribute { format: VertexFormat::Float32x2, offset: 3 * 4, shader_location: 1 });
    attrs.push(VertexAttribute { format: VertexFormat::Float32x3, offset: 5 * 4, shader_location: 2 });
    attrs.push(VertexAttribute { format: VertexFormat::Float32x3, offset: 8 * 4, shader_location: 3 });
    attrs.push(VertexAttribute { format: VertexFormat::Float32x3, offset: 11 * 4, shader_location: 4 });
    assert(attrs@ =~= vi_attributes());
    BufferLayoutIS::new(attrs, VERTEX_STRIDE)
}

/// Attributes that follow one another with no gap and no overlap from offset 0,
/// ending exactly at `stride`, with shader location i for the i-th attribute.
pub open spec fn packed_layout(attrs: Seq<VertexAttribute>, stride: u64) -> bool {
    &&& attrs.len() > 0
    &&& attrs[0].offset == 0
    &&& forall|i: int| 0 <= i < attrs.len() ==> #[trigger] attrs[i].shader_location == i
    &&& forall|i: int| 0 <= i < attrs.len() - 1 ==>
        #[trigger] attrs[i + 1].offset == attrs[i].offset + format_size(attrs[i].format)
    &&& attrs.last().offset + format_size(attrs.last().format) == stride
}

/// The renderer's vertex layout is tightly packed: each attribute starts where the
/// previous one ends, the last one ends at the stride, and locations count from 0.
pub proof fn lemma_vi_layout_packed()
    ensures
        packed_layout(vi_attributes(), VERTEX_STRIDE),
{
    let a = vi_attributes();
    assert forall|i: int| 0 <= i < a.len() - 1 implies
        #[trigger] a[i + 1].offset == a[i].offset + format_size(a[i].format) by {
        if i == 0 {} else if i == 1 {} else if i == 2 {} else {}
    }
    assert forall|i: int| 0 <= i < a.len() implies #[trigger] a[i].shader_location == i by {
        if i == 0 {} else if i == 1 {} else if i == 2 {} else if i == 3 {} else {}
    }
}

} // verus!
