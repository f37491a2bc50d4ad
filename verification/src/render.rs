use vstd::prelude::*;

verus! {

/// One command recorded into the frame's render pass.
#[derive(Clone, Copy, PartialEq, Eq, Structural, Debug)]
pub enum RenderCommand {
    SetPipeline,
    /// Bind group `group` of the list at bind-group slot `index`.
    SetBindGroup { index: u32, group: usize },
    /// The vertex buffer of mesh `mesh` at vertex-buffer slot `slot`.
    SetVertexBuffer { slot: u32, mesh: usize },
    /// The 32-bit index buffer of mesh `mesh`.
    SetIndexBuffer { mesh: usize },
    /// Draw indices `0..index_count` of mesh `mesh`, instances `0..instance_count`.
    DrawIndexed { mesh: usize, index_count: u32, instance_count: u32 },
}

/// The bind-group commands: group `i` at slot `i`, for each group in order.
pub open spec fn bind_group_commands(n_groups: nat) -> Seq<RenderCommand> {
    Seq::new(n_groups, |i: int| RenderCommand::SetBindGroup { index: i as u32, group: i as usize })
}

/// Command `j` of the draw part: for each mesh in order, its vertex buffer at slot 0,
/// its index buffer, then one instance of all its indices.
pub open spec fn mesh_command(counts: Seq<u32>, j: int) -> RenderCommand {
    let k: int = j / 3;
    if j % 3 == 0 {
        RenderCommand::SetVertexBuffer { slot: 0, mesh: k as usize }
    } else if j % 3 == 1 {
        RenderCommand::SetIndexBuffer { mesh: k as usize }
    } else {
        RenderCommand::DrawIndexed { mesh: k as usize, index_count: counts[k], instance_count: 1 }
    }
}

pub open spec fn mesh_commands(counts: Seq<u32>) -> Seq<RenderCommand> {
    Seq::new(3 * counts.len(), |j: int| mesh_command(counts, j))
}

/// The render pass of a frame: the pipeline, then every bind group, then every mesh.
pub open spec fn spec_render_commands(n_groups: nat, counts: Seq<u32>) -> Seq<RenderCommand> {
    seq![RenderCommand::SetPipeline] + bind_group_commands(n_groups) + mesh_commands(counts)
}

/// The commands of a frame's render pass, given the number of bind groups and the
/// index count of each mesh.
pub fn render_commands(n_groups: usize, index_counts: &Vec<u32>) -> (r: Vec<RenderCommand>)
    requires
        1 + n_groups + 3 * index_counts.len() <= usize::MAX,
    ensures
        r@ == spec_render_commands(n_groups as nat, index_counts@),
{
    let mut r: Vec<RenderCommand> = Vec::new();
    r.push(RenderCommand::SetPipeline);
    let mut i: usize = 0;
    while i < n_groups
        invariant
            i <= n_groups,
            r@ == seq![RenderCommand::SetPipeline] + bind_group_commands(i as nat),
        decreases n_groups - i,
    {
        r.push(RenderCommand::SetBindGroup { index: i as u32, group: i });
        i = i + 1;
        assert(r@ =~= seq![RenderCommand::SetPipeline] + bind_group_commands(i as nat));
    }
    let ghost head = r@;
    let mut k: usize = 0;
    while k < index_counts.len()
        invariant
            k <= index_counts.len(),
            head == seq![RenderCommand::SetPipeline] + bind_group_commands(n_groups as nat),
            r@ == head + mesh_commands(index_counts@.take(k as int)),
            forall|j: int| 0 <= j < 3 * k ==> mesh_command(index_counts@.take(k as int), j) == mesh_command(index_counts@, j),
        decreases index_counts.len() - k,
    {
        let ghost before = r@;
        r.push(RenderCommand::SetVertexBuffer { slot: 0, mesh: k });
        r.push(RenderCommand::SetIndexBuffer { mesh: k });
        r.push(RenderCommand::DrawIndexed { mesh: k, index_count: index_counts[k], instance_count: 1 });
        proof {
            let t = index_counts@.take(k + 1);
            assert forall|j: int| 0 <= j < 3 * (k + 1) implies mesh_command(t, j) == mesh_command(index_counts@, j) by {
                assert(j / 3 <= k);
            }
            assert forall|j: int| 0 <= j < 3 * (k + 1) implies
                #[trigger] mesh_commands(t)[j] == (r@.subrange(head.len() as int, r@.len() as int))[j] by {
                if j < 3 * k {
                    assert(mesh_command(index_counts@.take(k as int), j) == mesh_command(index_counts@, j));
                } else {
                    assert(j / 3 == k as int);
                }
            }
            assert(r@.subrange(head.len() as int, r@.len() as int) =~= mesh_commands(t));
            assert(r@ =~= head + mesh_commands(t));
        }
        k = k + 1;
    }
    assert(index_counts@.take(index_counts.len() as int) =~= index_counts@);
    r
}

/// Whether a scene can get a pipeline: it needs a camera and a material, whose bind
/// group layouts the pipeline is laid out with.
pub fn pipeline_ready(camera_count: usize, material_count: usize) -> (b: bool)
    ensures
        b == (camera_count > 0 && material_count > 0),
{
    camera_count > 0 && material_count > 0
}

/// Each mesh is drawn exactly once, with all of its indices and one instance, after
/// its own vertex and index buffers were set; and the pipeline and every bind group
/// are set before the first draw.
pub proof fn lemma_each_mesh_drawn_once(n_groups: nat, counts: Seq<u32>, m: int)
    requires
        0 <= m < counts.len(),
        counts.len() <= usize::MAX,
    ensures
        ({
            let c = spec_render_commands(n_groups, counts);
            let d = 1 + n_groups + 3 * m + 2;
            &&& c.len() == 1 + n_groups + 3 * counts.len()
            &&& c[d] == RenderCommand::DrawIndexed { mesh: m as usize, index_count: counts[m], instance_count: 1 }
            &&& c[d - 1] == RenderCommand::SetIndexBuffer { mesh: m as usize }
            &&& c[d - 2] == RenderCommand::SetVertexBuffer { slot: 0, mesh: m as usize }
            &&& forall|j: int| 0 <= j < c.len() && j != d ==>
                !(#[trigger] c[j] matches RenderCommand::DrawIndexed { mesh, .. } && mesh == m as usize)
            &&& c[0] == RenderCommand::SetPipeline
            &&& forall|g: int| 0 <= g < n_groups ==>
                #[trigger] c[1 + g] == RenderCommand::SetBindGroup { index: g as u32, group: g as usize }
        }),
{
    let c = spec_render_commands(n_groups, counts);
    let d = 1 + n_groups + 3 * m + 2;
    let base = 1 + n_groups;
    assert(c[d] == mesh_commands(counts)[3 * m + 2]);
    assert((3 * m + 2) / 3 == m && (3 * m + 2) % 3 == 2);
    assert((3 * m + 1) / 3 == m && (3 * m + 1) % 3 == 1);
    assert((3 * m) / 3 == m && (3 * m) % 3 == 0);
    assert(c[d - 1] == mesh_commands(counts)[3 * m + 1]);
    assert(c[d - 2] == mesh_commands(counts)[3 * m]);
    assert forall|j: int| 0 <= j < c.len() && j != d implies
        !(#[trigger] c[j] matches RenderCommand::DrawIndexed { mesh, .. } && mesh == m as usize) by {
        if j >= base {
            let q = j - base;
            assert(c[j] == mesh_command(counts, q));
            if q % 3 == 2 {
                assert(q / 3 != m) by {
                    if q / 3 == m {
                        assert(q == 3 * m + 2);
                    }
                }
                assert(0 <= q / 3 < counts.len());
            }
        }
    }
    assert forall|g: int| 0 <= g < n_groups implies
        #[trigger] c[1 + g] == RenderCommand::SetBindGroup { index: g as u32, group: g as usize } by {
        assert(c[1 + g] == bind_group_commands(n_groups)[g]);
    }
}

} // verus!
