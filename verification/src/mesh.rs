use vstd::prelude::*;

verus! {

/// The faces of a mesh as sequences of vertex indices.
pub open spec fn faces_view(faces: Seq<Vec<u32>>) -> Seq<Seq<u32>> {
    faces.map_values(|f: Vec<u32>| f@)
}

/// The index list and counts a mesh is drawn with.
pub struct MeshIndexData {
    pub indices: Vec<u32>,
    pub vertex_count: u32,
    pub index_count: u32,
}

/// The indices of all faces, one face after another, each face's indices in order.
pub fn flatten_faces(faces: &Vec<Vec<u32>>) -> (r: Vec<u32>)
    ensures
        r@ == faces_view(faces@).flatten(),
{
    let ghost fv = faces_view(faces@);
    let mut out: Vec<u32> = Vec::new();
    let mut i: usize = 0;
    while i < faces.len()
        invariant
            i <= faces.len(),
            fv == faces_view(faces@),
            out@ == fv.take(i as int).flatten(),
        decreases faces.len() - i,
    {
        let face = &faces[i];
        let ghost base = out@;
        let mut j: usize = 0;
        while j < face.len()
            invariant
                j <= face.len(),
                out@ == base + face@.take(j as int),
            decreases face.len() - j,
        {
            out.push(face[j]);
            j = j + 1;
            assert(out@ =~= base + face@.take(j as int));
        }
        proof {
            assert(face@.take(face@.len() as int) =~= face@);
            assert(fv[i as int] == face@);
            assert(fv.take(i + 1) =~= fv.take(i as int).push(fv[i as int]));
            fv.take(i as int).lemma_flatten_push(fv[i as int]);
        }
        i = i + 1;
    }
    assert(fv.take(faces.len() as int) =~= fv);
    out
}

/// A mesh's index list and counts: the faces flattened; the vertex and index counts
/// are the lengths taken modulo 2^32, as the draw call counts them in 32 bits.
pub fn mesh_index_data(faces: &Vec<Vec<u32>>, vertex_len: usize) -> (r: MeshIndexData)
    ensures
        r.indices@ == faces_view(faces@).flatten(),
        r.vertex_count == vertex_len as u32,
        r.index_count == r.indices.len() as u32,
{
    let indices = flatten_faces(faces);
    let index_count: u32 = indices.len() as u32;
    MeshIndexData { indices, vertex_count: vertex_len as u32, index_count }
}

/// The value of a per-vertex attribute for vertex `i`: the stored value where the
/// mesh has one, `default` past the end of the attribute's data.
pub open spec fn attribute_at<T>(values: Seq<T>, i: int, default: T) -> T {
    if 0 <= i < values.len() {
        values[i]
    } else {
        default
    }
}

/// One value of a per-vertex attribute for each of `count` vertices; vertices past
/// the end of `values` get `default`.
pub fn fill_attribute<T: Copy>(values: &Vec<T>, count: usize, default: T) -> (r: Vec<T>)
    ensures
        r.len() == count,
        forall|i: int| 0 <= i < count ==> #[trigger] r@[i] == attribute_at(values@, i, default),
{
    let mut r: Vec<T> = Vec::new();
    let mut i: usize = 0;
    while i < count
        invariant
            i <= count,
            r.len() == i,
            forall|k: int| 0 <= k < i ==> #[trigger] r@[k] == attribute_at(values@, k, default),
        decreases count - i,
    {
        if i < values.len() {
            r.push(values[i]);
        } else {
            r.push(default);
        }
        i = i + 1;
    }
    r
}

/// Column-major order of a 4x4 matrix given in row-major order: entry (row, col)
/// moves from position `4 * row + col` to `4 * col + row`.
pub open spec fn is_transpose<T>(m: Seq<T>, t: Seq<T>) -> bool {
    &&& m.len() == 16
    &&& t.len() == 16
    &&& forall|row: int, col: int| 0 <= row < 4 && 0 <= col < 4 ==>
        #[trigger] t[4 * col + row] == m[4 * row + col]
}

/// Reorders a row-major 4x4 matrix into column-major order.
pub fn row_major_to_columns<T: Copy>(m: &[T; 16]) -> (t: [T; 16])
    ensures
        is_transpose(m@, t@),
{
    let t = [
        m[0], m[4], m[8], m[12],
        m[1], m[5], m[9], m[13],
        m[2], m[6], m[10], m[14],
        m[3], m[7], m[11], m[15],
    ];
    assert forall|row: int, col: int| 0 <= row < 4 && 0 <= col < 4 implies
        #[trigger] t@[4 * col + row] == m@[4 * row + col] by {
        if row == 0 { if col == 0 {} else if col == 1 {} else if col == 2 {} else {} }
        else if row == 1 { if col == 0 {} else if col == 1 {} else if col == 2 {} else {} }
        else if row == 2 { if col == 0 {} else if col == 1 {} else if col == 2 {} else {} }
        else { if col == 0 {} else if col == 1 {} else if col == 2 {} else {} }
    }
    t
}

/// Reordering twice gives the matrix back: the column-major reorder is its own inverse.
pub proof fn lemma_transpose_involutive<T>(m: Seq<T>, t: Seq<T>, u: Seq<T>)
    requires
        is_transpose(m, t),
        is_transpose(t, u),
    ensures
        u == m,
{
    assert forall|k: int| 0 <= k < 16 implies u[k] == m[k] by {
        let row: int = k / 4;
        let col: int = k % 4;
        assert(k == 4 * row + col);
        assert(u[4 * row + col] == t[4 * col + row]);
        assert(t[4 * col + row] == m[4 * row + col]);
    }
    assert(u =~= m);
}

/// Flattening faces keeps every index and adds none: the index count is the sum of
/// the face sizes, and appending a face appends exactly its indices.
pub proof fn lemma_flatten_appends(faces: Seq<Seq<u32>>, face: Seq<u32>)
    ensures
        faces.push(face).flatten() == faces.flatten() + face,
        faces.push(face).flatten().len() == faces.flatten().len() + face.len(),
{
    faces.lemma_flatten_push(face);
}

} // verus!
