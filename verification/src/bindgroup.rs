use vstd::prelude::*;

verus! {

/// The shader stage that sees a binding.
#[derive(Clone, Copy, PartialEq, Eq, Structural, Debug)]
pub enum ShaderStage {
    Vertex,
    Fragment,
}

/// What a binding holds.
#[derive(Clone, Copy, PartialEq, Eq, Structural, Debug)]
pub enum BindingKind {
    /// A filterable two-dimensional float texture, not multisampled.
    FilterableTexture2d,
    /// A filtering sampler.
    FilteringSampler,
    /// A uniform buffer without dynamic offset.
    UniformBuffer,
}

/// One entry of a bind group layout.
#[derive(Clone, Copy, PartialEq, Eq, Structural, Debug)]
pub struct LayoutEntry {
    pub binding: u32,
    pub visibility: ShaderStage,
    pub kind: BindingKind,
}

/// The entries of a layout number their bindings 0, 1, 2, ... in order, so no
/// binding occurs twice.
pub open spec fn numbered_in_order(entries: Seq<LayoutEntry>) -> bool {
    forall|i: int| 0 <= i < entries.len() ==> #[trigger] entries[i].binding == i
}

/// The camera's layout: the view-projection matrix for the vertex stage and the
/// camera position for the fragment stage, both uniform buffers.
pub open spec fn camera_entries() -> Seq<LayoutEntry> {
    seq![
        LayoutEntry { binding: 0, visibility: ShaderStage::Vertex, kind: BindingKind::UniformBuffer },
        LayoutEntry { binding: 1, visibility: ShaderStage::Fragment, kind: BindingKind::UniformBuffer },
    ]
}

/// The layout of a single textured bind group: texture, sampler and a uniform
/// colour, all for the fragment stage.
pub open spec fn texture_entries() -> Seq<LayoutEntry> {
    seq![
        LayoutEntry { binding: 0, visibility: ShaderStage::Fragment, kind: BindingKind::FilterableTexture2d },
        LayoutEntry { binding: 1, visibility: ShaderStage::Fragment, kind: BindingKind::FilteringSampler },
        LayoutEntry { binding: 2, visibility: ShaderStage::Fragment, kind: BindingKind::UniformBuffer },
    ]
}

/// The kind of the material layout's binding `i`: base colour texture, sampler, five
/// more textures (normal, roughness, metalness, ambient occlusion, emissive) and the
/// material uniforms.
pub open spec fn material_kind(i: int) -> BindingKind {
    if i == 1 {
        BindingKind::FilteringSampler
    } else if i == 7 {
        BindingKind::UniformBuffer
    } else {
        BindingKind::FilterableTexture2d
    }
}

/// The material layout: eight fragment-stage bindings of the kinds `material_kind` gives.
pub open spec fn material_entries() -> Seq<LayoutEntry> {
    Seq::new(8, |i: int| LayoutEntry { binding: i as u32, visibility: ShaderStage::Fragment, kind: material_kind(i) })
}

fn entry(binding: u32, visibility: ShaderStage, kind: BindingKind) -> (e: LayoutEntry)
    ensures
        e == (LayoutEntry { binding, visibility, kind }),
{
    LayoutEntry { binding, visibility, kind }
}

/// The entries of the camera's bind group layout.
pub fn camera_layout_entries() -> (r: Vec<LayoutEntry>)
    ensures
        r@ == camera_entries(),
{
    let mut r: Vec<LayoutEntry> = Vec::new();
    r.push(entry(0, ShaderStage::Vertex, BindingKind::UniformBuffer));
    r.push(entry(1, ShaderStage::Fragment, BindingKind::UniformBuffer));
    assert(r@ =~= camera_entries());
    r
}

/// The entries of a single texture's bind group layout.
pub fn texture_layout_entries() -> (r: Vec<LayoutEntry>)
    ensures
        r@ == texture_entries(),
{
    let mut r: Vec<LayoutEntry> = Vec::new();
    r.push(entry(0, ShaderStage::Fragment, BindingKind::FilterableTexture2d));
    r.push(entry(1, ShaderStage::Fragment, BindingKind::FilteringSampler));
    r.push(entry(2, ShaderStage::Fragment, BindingKind::UniformBuffer));
    assert(r@ =~= texture_entries());
    r
}

/// The entries of a material's bind group layout.
pub fn material_layout_entries() -> (r: Vec<LayoutEntry>)
    ensures
        r@ == material_entries(),
{
    let mut r: Vec<LayoutEntry> = Vec::new();
    let mut i: u32 = 0;
    while i < 8
        invariant
            i <= 8,
            r@ == material_entries().subrange(0, i as int),
        decreases 8 - i,
    {
        let kind = if i == 1 {
            BindingKind::FilteringSampler
        } else if i == 7 {
            BindingKind::UniformBuffer
        } else {
            BindingKind::FilterableTexture2d
        };
        r.push(entry(i, ShaderStage::Fragment, kind));
        i = i + 1;
        assert(r@ =~= material_entries().subrange(0, i as int));
    }
    assert(r@ =~= material_entries());
    r
}

/// Every layout the renderer builds numbers its bindings 0, 1, 2, ... in order.
pub proof fn lemma_layouts_numbered()
    ensures
        numbered_in_order(camera_entries()),
        numbered_in_order(texture_entries()),
        numbered_in_order(material_entries()),
{
    assert forall|i: int| 0 <= i < camera_entries().len() implies #[trigger] camera_entries()[i].binding == i by {
        if i == 0 {} else {}
    }
    assert forall|i: int| 0 <= i < texture_entries().len() implies #[trigger] texture_entries()[i].binding == i by {
        if i == 0 {} else if i == 1 {} else {}
    }
}

} // verus!
