use vstd::prelude::*;

verus! {

/// A node of a model's scene graph: the meshes it draws and its child nodes, given
/// by their positions in the node list.
pub struct SceneNode {
    pub meshes: Vec<u32>,
    pub children: Vec<usize>,
}

/// Whether node `j` is listed among the children of some node.
pub open spec fn has_parent(nodes: Seq<SceneNode>, j: int) -> bool {
    exists|i: int, k: int|
        0 <= i < nodes.len() && 0 <= k < nodes[i].children.len() && #[trigger] nodes[i].children@[k] == j
}

/// A scene graph as a node list, the root first, that forms a tree: every child comes
/// after its parent in the list (which is how a depth-first listing of a tree orders
/// it), no node is listed as a child twice, whether under one parent or two, and every
/// node but the root is some node's child. (The list's length fits in `usize`, as that
/// of any list in memory does.)
pub open spec fn tree_wf(nodes: Seq<SceneNode>) -> bool {
    &&& 0 < nodes.len() <= usize::MAX
    &&& forall|i: int, k: int| 0 <= i < nodes.len() && 0 <= k < nodes[i].children.len() ==>
        i < #[trigger] nodes[i].children@[k] < nodes.len()
    &&& forall|i1: int, k1: int, i2: int, k2: int|
        0 <= i1 < nodes.len() && 0 <= k1 < nodes[i1].children.len()
            && 0 <= i2 < nodes.len() && 0 <= k2 < nodes[i2].children.len()
            && #[trigger] nodes[i1].children@[k1] == #[trigger] nodes[i2].children@[k2]
            ==> i1 == i2 && k1 == k2
    &&& forall|j: int| 0 < j < nodes.len() ==> #[trigger] has_parent(nodes, j)
}

/// One mesh met in a walk over the scene graph, with the path of nodes from the root
/// to the node that draws it (root first, that node last).
pub struct MeshVisit {
    pub mesh_index: u32,
    pub path: Vec<usize>,
}

pub open spec fn visit_view(v: MeshVisit) -> (u32, Seq<usize>) {
    (v.mesh_index, v.path@)
}

/// The meshes of one node, each paired with the node's path.
pub open spec fn mesh_visits_of(meshes: Seq<u32>, path: Seq<usize>) -> Seq<(u32, Seq<usize>)> {
    meshes.map_values(|m: u32| (m, path))
}

/// The meshes met in a depth-first walk from node `i`, reached by `path`: the node's
/// own meshes in order, then the walks of its children in order.
pub open spec fn node_visits(nodes: Seq<SceneNode>, i: int, path: Seq<usize>) -> Seq<(u32, Seq<usize>)>
    decreases nodes.len() - i, 1int, 0int,
{
    if 0 <= i < nodes.len() {
        let p = path.push(i as usize);
        mesh_visits_of(nodes[i].meshes@, p) + children_visits(nodes, i, p, nodes[i].children@.len() as int)
    } else {
        Seq::empty()
    }
}

/// The walks of the first `k` children of node `i`, one after another.
pub open spec fn children_visits(nodes: Seq<SceneNode>, i: int, p: Seq<usize>, k: int) -> Seq<(u32, Seq<usize>)>
    decreases nodes.len() - i, 0int, k,
{
    if 0 <= i < nodes.len() && 0 < k <= nodes[i].children@.len() {
        let c = nodes[i].children@[k - 1] as int;
        children_visits(nodes, i, p, k - 1) + (if i < c < nodes.len() {
            node_visits(nodes, c, p)
        } else {
            Seq::empty()
        })
    } else {
        Seq::empty()
    }
}

/// `q` from position `s` on is a chain of nodes in which each is a child of the one
/// before.
pub open spec fn chain_from(nodes: Seq<SceneNode>, q: Seq<usize>, s: int) -> bool {
    &&& forall|j: int| s <= j < q.len() ==> #[trigger] q[j] < nodes.len()
    &&& forall|j: int| s <= j < q.len() - 1 ==> nodes[q[j] as int].children@.contains(#[trigger] q[j + 1])
}

/// What every visit of a walk from node `i` reached by `path` satisfies: its path
/// extends `path` by `i` and then by a chain of children, and the last node of its
/// path draws its mesh.
pub open spec fn visit_follows(nodes: Seq<SceneNode>, i: int, path: Seq<usize>, e: (u32, Seq<usize>)) -> bool {
    &&& e.1.len() > path.len()
    &&& e.1.subrange(0, path.len() as int) == path
    &&& e.1[path.len() as int] == i
    &&& chain_from(nodes, e.1, path.len() as int)
    &&& nodes[e.1.last() as int].meshes@.contains(e.0)
}

proof fn lemma_node_visits_follow(nodes: Seq<SceneNode>, i: int, path: Seq<usize>)
    requires
        tree_wf(nodes),
        0 <= i < nodes.len(),
    ensures
        forall|k: int| 0 <= k < node_visits(nodes, i, path).len() ==>
            visit_follows(nodes, i, path, #[trigger] node_visits(nodes, i, path)[k]),
    decreases nodes.len() - i, 1int, 0int,
{
    let p = path.push(i as usize);
    let own = mesh_visits_of(nodes[i].meshes@, p);
    let n = nodes[i].children@.len() as int;
    lemma_children_visits_follow(nodes, i, p, n);
    let rest = children_visits(nodes, i, p, n);
    assert(node_visits(nodes, i, path) == own + rest);
    assert forall|k: int| 0 <= k < node_visits(nodes, i, path).len() implies
        visit_follows(nodes, i, path, #[trigger] node_visits(nodes, i, path)[k]) by {
        let e = node_visits(nodes, i, path)[k];
        if k < own.len() {
            assert(e == own[k]);
            assert(e.1 == p);
            assert(e.1.subrange(0, path.len() as int) =~= path);
            assert(nodes[i].meshes@[k] == e.0);
        } else {
            assert(e == rest[k - own.len()]);
            let q = e.1;
            let pl = path.len() as int;
            assert(q.subrange(0, p.len() as int) == p);
            assert forall|j: int| 0 <= j < pl implies q[j] == path[j] by {
                assert(q[j] == q.subrange(0, p.len() as int)[j]);
            }
            assert(q.subrange(0, pl) =~= path);
            assert(q[pl] == q.subrange(0, p.len() as int)[pl]);
            assert(q[pl] == i);
            assert(nodes[i].children@.contains(q[pl + 1]));
            assert forall|j: int| pl <= j < q.len() implies #[trigger] q[j] < nodes.len() by {
                if j == pl {} else {}
            }
            assert forall|j: int| pl <= j < q.len() - 1 implies nodes[q[j] as int].children@.contains(#[trigger] q[j + 1]) by {
                if j == pl {} else {}
            }
        }
    }
}

proof fn lemma_children_visits_follow(nodes: Seq<SceneNode>, i: int, p: Seq<usize>, k: int)
    requires
        tree_wf(nodes),
        0 <= i < nodes.len(),
        p.len() > 0,
        p.last() == i,
        0 <= k <= nodes[i].children@.len(),
    ensures
        forall|t: int| 0 <= t < children_visits(nodes, i, p, k).len() ==> {
            let e = #[trigger] children_visits(nodes, i, p, k)[t];
            &&& e.1.len() > p.len()
            &&& e.1.subrange(0, p.len() as int) == p
            &&& nodes[i].children@.contains(e.1[p.len() as int])
            &&& chain_from(nodes, e.1, p.len() as int)
            &&& nodes[e.1.last() as int].meshes@.contains(e.0)
        },
    decreases nodes.len() - i, 0int, k,
{
    if k > 0 {
        lemma_children_visits_follow(nodes, i, p, k - 1);
        let c = nodes[i].children@[k - 1] as int;
        assert(i < c < nodes.len());
        lemma_node_visits_follow(nodes, c, p);
        let front = children_visits(nodes, i, p, k - 1);
        let back = node_visits(nodes, c, p);
        assert(children_visits(nodes, i, p, k) == front + back);
        assert forall|t: int| 0 <= t < children_visits(nodes, i, p, k).len() implies {
            let e = #[trigger] children_visits(nodes, i, p, k)[t];
            &&& e.1.len() > p.len()
            &&& e.1.subrange(0, p.len() as int) == p
            &&& nodes[i].children@.contains(e.1[p.len() as int])
            &&& chain_from(nodes, e.1, p.len() as int)
            &&& nodes[e.1.last() as int].meshes@.contains(e.0)
        } by {
            let e = children_visits(nodes, i, p, k)[t];
            if t >= front.len() {
                assert(e == back[t - front.len()]);
                assert(visit_follows(nodes, c, p, e));
                assert(nodes[i].children@[k - 1] == e.1[p.len() as int]);
            }
        }
    }
}

/// The children listed so far: those of the nodes before `i`, and the first `k` of
/// node `i`.
spec fn listed_before(nodes: Seq<SceneNode>, i: int, k: int, a: int, b: int) -> bool {
    0 <= a < nodes.len() && 0 <= b < nodes[a].children.len() && (a < i || (a == i && b < k))
}

/// What the check has established once the children listed before `(i, k)` are read:
/// each is in range, none is listed twice, and `seen` marks exactly the listed ones.
spec fn checked_upto(nodes: Seq<SceneNode>, seen: Seq<bool>, i: int, k: int) -> bool {
    &&& seen.len() == nodes.len()
    &&& forall|a: int, b: int| listed_before(nodes, i, k, a, b) ==>
        a < #[trigger] nodes[a].children@[b] < nodes.len()
    &&& forall|a1: int, b1: int, a2: int, b2: int|
        listed_before(nodes, i, k, a1, b1) && listed_before(nodes, i, k, a2, b2)
            && #[trigger] nodes[a1].children@[b1] == #[trigger] nodes[a2].children@[b2]
            ==> a1 == a2 && b1 == b2
    &&& forall|j: int| 0 <= j < nodes.len() ==> (#[trigger] seen[j] <==>
        exists|a: int, b: int| listed_before(nodes, i, k, a, b) && #[trigger] nodes[a].children@[b] == j)
}

/// Whether the node list is a well-formed scene graph (see `tree_wf`).
pub fn is_tree_wf(nodes: &Vec<SceneNode>) -> (b: bool)
    ensures
        b == tree_wf(nodes@),
{
    let n = nodes.len();
    if n == 0 {
        return false;
    }
    let mut seen: Vec<bool> = Vec::new();
    let mut j: usize = 0;
    while j < n
        invariant
            n == nodes.len(),
            j <= n,
            seen.len() == j,
            forall|t: int| 0 <= t < j ==> !seen@[t],
        decreases n - j,
    {
        seen.push(false);
        j = j + 1;
    }
    let mut i: usize = 0;
    while i < n
        invariant
            n == nodes.len(),
            0 < n,
            i <= n,
            checked_upto(nodes@, seen@, i as int, 0),
        decreases n - i,
    {
        let node = &nodes[i];
        let mut k: usize = 0;
        while k < node.children.len()
            invariant
                n == nodes.len(),
                i < n,
                node == &nodes@[i as int],
                k <= node.children.len(),
                checked_upto(nodes@, seen@, i as int, k as int),
            decreases node.children.len() - k,
        {
            let c: usize = node.children[k];
            if !(i < c && c < n) {
                assert(!(i < nodes@[i as int].children@[k as int] < nodes.len()));
                return false;
            }
            if seen[c] {
                proof {
                    let (a, b) = choose|a: int, b: int|
                        listed_before(nodes@, i as int, k as int, a, b) && #[trigger] nodes@[a].children@[b] == c;
                    assert(nodes@[a].children@[b] == nodes@[i as int].children@[k as int]);
                }
                return false;
            }
            let ghost old_seen = seen@;
            seen.set(c, true);
            proof {
                let ns = nodes@;
                assert forall|t: int| 0 <= t < ns.len() implies (#[trigger] seen@[t] <==>
                    exists|a: int, b: int| listed_before(ns, i as int, k + 1, a, b) && #[trigger] ns[a].children@[b] == t) by {
                    if t == c {
                        assert(listed_before(ns, i as int, k + 1, i as int, k as int));
                        assert(ns[i as int].children@[k as int] == t);
                    } else {
                        assert(seen@[t] == old_seen[t]);
                        if seen@[t] {
                            let (a, b) = choose|a: int, b: int|
                                listed_before(ns, i as int, k as int, a, b) && #[trigger] ns[a].children@[b] == t;
                            assert(listed_before(ns, i as int, k + 1, a, b));
                        }
                        if exists|a: int, b: int| listed_before(ns, i as int, k + 1, a, b) && #[trigger] ns[a].children@[b] == t {
                            let (a, b) = choose|a: int, b: int|
                                listed_before(ns, i as int, k + 1, a, b) && #[trigger] ns[a].children@[b] == t;
                            assert(listed_before(ns, i as int, k as int, a, b));
                        }
                    }
                }
                assert forall|a1: int, b1: int, a2: int, b2: int|
                    listed_before(ns, i as int, k + 1, a1, b1) && listed_before(ns, i as int, k + 1, a2, b2)
                        && #[trigger] ns[a1].children@[b1] == #[trigger] ns[a2].children@[b2]
                        implies a1 == a2 && b1 == b2 by {
                    if !(a1 == i && b1 == k) && (a2 == i && b2 == k) {
                        assert(old_seen[c as int]);
                    }
                    if (a1 == i && b1 == k) && !(a2 == i && b2 == k) {
                        assert(old_seen[c as int]);
                    }
                }
            }
            k = k + 1;
        }
        proof {
            let ns = nodes@;
            assert forall|a: int, b: int| listed_before(ns, i + 1, 0, a, b) implies
                listed_before(ns, i as int, ns[i as int].children.len() as int, a, b) by {}
            assert forall|t: int| 0 <= t < ns.len() implies (#[trigger] seen@[t] <==>
                exists|a: int, b: int| listed_before(ns, i + 1, 0, a, b) && #[trigger] ns[a].children@[b] == t) by {
                if seen@[t] {
                    let (a, b) = choose|a: int, b: int|
                        listed_before(ns, i as int, ns[i as int].children.len() as int, a, b)
                            && #[trigger] ns[a].children@[b] == t;
                    assert(listed_before(ns, i + 1, 0, a, b));
                }
            }
        }
        i = i + 1;
    }
    proof {
        let ns = nodes@;
        assert forall|a: int, b: int| 0 <= a < ns.len() && 0 <= b < ns[a].children.len()
            implies listed_before(ns, n as int, 0, a, b) by {}
    }
    let mut j: usize = 1;
    while j < n
        invariant
            n == nodes.len(),
            1 <= j <= n,
            checked_upto(nodes@, seen@, n as int, 0),
            forall|t: int| 1 <= t < j ==> seen@[t],
        decreases n - j,
    {
        if !seen[j] {
            proof {
                let ns = nodes@;
                if has_parent(ns, j as int) {
                    let (a, b) = choose|a: int, b: int|
                        0 <= a < ns.len() && 0 <= b < ns[a].children.len() && #[trigger] ns[a].children@[b] == j;
                    assert(listed_before(ns, n as int, 0, a, b));
                }
            }
            return false;
        }
        j = j + 1;
    }
    proof {
        let ns = nodes@;
        assert forall|i1: int, k1: int, i2: int, k2: int|
            0 <= i1 < ns.len() && 0 <= k1 < ns[i1].children.len()
                && 0 <= i2 < ns.len() && 0 <= k2 < ns[i2].children.len()
                && #[trigger] ns[i1].children@[k1] == #[trigger] ns[i2].children@[k2]
                implies i1 == i2 && k1 == k2 by {
            assert(listed_before(ns, n as int, 0, i1, k1));
            assert(listed_before(ns, n as int, 0, i2, k2));
        }
        assert forall|i1: int, k1: int| 0 <= i1 < ns.len() && 0 <= k1 < ns[i1].children.len()
            implies i1 < #[trigger] ns[i1].children@[k1] < ns.len() by {
            assert(listed_before(ns, n as int, 0, i1, k1));
        }
        assert forall|t: int| 0 < t < ns.len() implies #[trigger] has_parent(ns, t) by {
            assert(seen@[t]);
            let (a, b) = choose|a: int, b: int| listed_before(ns, n as int, 0, a, b) && #[trigger] ns[a].children@[b] == t;
        }
    }
    true
}

fn copy_path(path: &Vec<usize>) -> (r: Vec<usize>)
    ensures
        r@ == path@,
{
    let mut r: Vec<usize> = Vec::new();
    let mut j: usize = 0;
    while j < path.len()
        invariant
            j <= path.len(),
            r@ == path@.take(j as int),
        decreases path.len() - j,
    {
        r.push(path[j]);
        j = j + 1;
        assert(r@ =~= path@.take(j as int));
    }
    assert(path@.take(path.len() as int) =~= path@);
    r
}

fn collect_visits(nodes: &Vec<SceneNode>, i: usize, path: &Vec<usize>, out: &mut Vec<MeshVisit>)
    requires
        tree_wf(nodes@),
        i < nodes.len(),
    ensures
        final(out)@.map_values(|v: MeshVisit| visit_view(v))
            == old(out)@.map_values(|v: MeshVisit| visit_view(v)) + node_visits(nodes@, i as int, path@),
    decreases nodes.len() - i,
{
    let ghost start = old(out)@.map_values(|v: MeshVisit| visit_view(v));
    let mut p = copy_path(path);
    p.push(i);
    let node = &nodes[i];
    let ghost mv = mesh_visits_of(node.meshes@, p@);
    let mut m: usize = 0;
    while m < node.meshes.len()
        invariant
            i < nodes.len(),
            node == &nodes@[i as int],
            m <= node.meshes.len(),
            mv == mesh_visits_of(node.meshes@, p@),
            out@.map_values(|v: MeshVisit| visit_view(v)) == start + mv.take(m as int),
        decreases node.meshes.len() - m,
    {
        let ghost before = out@;
        let visit = MeshVisit { mesh_index: node.meshes[m], path: copy_path(&p) };
        assert(visit_view(visit) == mv[m as int]);
        out.push(visit);
        proof {
            assert(out@ == before.push(visit));
            assert(out@.map_values(|v: MeshVisit| visit_view(v))
                =~= before.map_values(|v: MeshVisit| visit_view(v)).push(visit_view(visit)));
            assert(mv.take(m + 1) =~= mv.take(m as int).push(mv[m as int]));
        }
        m = m + 1;
        assert(out@.map_values(|v: MeshVisit| visit_view(v)) =~= start + mv.take(m as int));
    }
    assert(mv.take(node.meshes.len() as int) =~= mv);
    let ghost mid = start + mv;
    let mut k: usize = 0;
    while k < node.children.len()
        invariant
            tree_wf(nodes@),
            i < nodes.len(),
            node == &nodes@[i as int],
            k <= node.children.len(),
            p@ == path@.push(i),
            out@.map_values(|v: MeshVisit| visit_view(v)) == mid + children_visits(nodes@, i as int, p@, k as int),
        decreases node.children.len() - k,
    {
        let c: usize = node.children[k];
        assert(i < nodes@[i as int].children@[k as int] < nodes.len());
        collect_visits(nodes, c, &p, out);
        k = k + 1;
        assert(out@.map_values(|v: MeshVisit| visit_view(v))
            =~= mid + children_visits(nodes@, i as int, p@, k as int));
    }
    assert(node_visits(nodes@, i as int, path@)
        == mesh_visits_of(nodes@[i as int].meshes@, p@) + children_visits(nodes@, i as int, p@, nodes@[i as int].children@.len() as int));
    assert(out@.map_values(|v: MeshVisit| visit_view(v)) =~= start + node_visits(nodes@, i as int, path@));
}

/// The meshes met in a depth-first walk over the scene graph from the root, in the
/// order the model loader transforms them and builds their materials, each with the
/// path of nodes whose transformations apply to it.
pub fn mesh_visits(nodes: &Vec<SceneNode>) -> (r: Vec<MeshVisit>)
    requires
        tree_wf(nodes@),
    ensures
        r@.map_values(|v: MeshVisit| visit_view(v)) == node_visits(nodes@, 0, Seq::<usize>::empty()),
        r.len() == mesh_references(nodes@, nodes@.len() as int),
{
    let mut out: Vec<MeshVisit> = Vec::new();
    let path: Vec<usize> = Vec::new();
    collect_visits(nodes, 0, &path, &mut out);
    assert(Seq::<MeshVisit>::empty().map_values(|v: MeshVisit| visit_view(v)) =~= Seq::<(u32, Seq<usize>)>::empty());
    assert(out@.map_values(|v: MeshVisit| visit_view(v)) =~= node_visits(nodes@, 0, path@));
    proof {
        lemma_one_visit_per_mesh_reference(nodes@);
        assert(out@.map_values(|v: MeshVisit| visit_view(v)).len() == out.len());
    }
    out
}

/// Every mesh met in the walk over a well-formed scene graph comes with the path from
/// the root to a node that draws it, each node on the path a child of the one before;
/// and the root's own meshes are met first, in their order.
pub proof fn lemma_visit_paths_are_ancestor_chains(nodes: Seq<SceneNode>)
    requires
        tree_wf(nodes),
    ensures
        forall|k: int| 0 <= k < node_visits(nodes, 0, Seq::<usize>::empty()).len() ==>
            visit_follows(nodes, 0, Seq::<usize>::empty(), #[trigger] node_visits(nodes, 0, Seq::<usize>::empty())[k]),
        node_visits(nodes, 0, Seq::<usize>::empty()).subrange(0, nodes[0].meshes.len() as int)
            == mesh_visits_of(nodes[0].meshes@, seq![0usize]),
{
    lemma_node_visits_follow(nodes, 0, Seq::<usize>::empty());
    let own = mesh_visits_of(nodes[0].meshes@, Seq::<usize>::empty().push(0usize));
    assert(Seq::<usize>::empty().push(0usize) =~= seq![0usize]);
    let all = node_visits(nodes, 0, Seq::<usize>::empty());
    assert(all.subrange(0, own.len() as int) =~= own);
}

proof fn lemma_children_visits_include(nodes: Seq<SceneNode>, i: int, p: Seq<usize>, n: int, k: int, e: (u32, Seq<usize>))
    requires
        tree_wf(nodes),
        0 <= i < nodes.len(),
        0 <= k < n <= nodes[i].children@.len(),
        node_visits(nodes, nodes[i].children@[k] as int, p).contains(e),
    ensures
        children_visits(nodes, i, p, n).contains(e),
    decreases n,
{
    let front = children_visits(nodes, i, p, n - 1);
    let c = nodes[i].children@[n - 1] as int;
    assert(i < c < nodes.len());
    let back = node_visits(nodes, c, p);
    assert(children_visits(nodes, i, p, n) == front + back);
    if k == n - 1 {
        let t = choose|t: int| 0 <= t < back.len() && back[t] == e;
        assert((front + back)[front.len() + t] == e);
    } else {
        lemma_children_visits_include(nodes, i, p, n - 1, k, e);
        let t = choose|t: int| 0 <= t < front.len() && front[t] == e;
        assert((front + back)[t] == e);
    }
}

proof fn lemma_node_visits_complete(nodes: Seq<SceneNode>, i: int, path: Seq<usize>, q: Seq<usize>, m: u32)
    requires
        tree_wf(nodes),
        0 <= i < nodes.len(),
        q.len() > path.len(),
        q.subrange(0, path.len() as int) == path,
        q[path.len() as int] == i,
        chain_from(nodes, q, path.len() as int),
        nodes[q.last() as int].meshes@.contains(m),
    ensures
        node_visits(nodes, i, path).contains((m, q)),
    decreases q.len() - path.len(),
{
    let p = path.push(i as usize);
    let own = mesh_visits_of(nodes[i].meshes@, p);
    let rest = children_visits(nodes, i, p, nodes[i].children@.len() as int);
    assert(node_visits(nodes, i, path) == own + rest);
    if q.len() == path.len() + 1 {
        assert(q =~= p);
        let t = choose|t: int| 0 <= t < nodes[i].meshes@.len() && nodes[i].meshes@[t] == m;
        assert(own[t] == (m, q));
        assert((own + rest)[t] == (m, q));
    } else {
        let pl = path.len() as int;
        let c = q[pl + 1];
        assert(nodes[q[pl] as int].children@.contains(q[pl + 1]));
        let k = choose|k: int| 0 <= k < nodes[i].children@.len() && nodes[i].children@[k] == c;
        assert(i < c < nodes.len());
        assert(q.subrange(0, p.len() as int) =~= p) by {
            assert forall|j: int| 0 <= j < p.len() implies q[j] == p[j] by {
                if j < pl {
                    assert(q[j] == q.subrange(0, pl)[j]);
                }
            }
        }
        assert forall|j: int| p.len() <= j < q.len() implies #[trigger] q[j] < nodes.len() by {}
        assert forall|j: int| p.len() <= j < q.len() - 1 implies nodes[q[j] as int].children@.contains(#[trigger] q[j + 1]) by {}
        lemma_node_visits_complete(nodes, c as int, p, q, m);
        lemma_children_visits_include(nodes, i, p, nodes[i].children@.len() as int, k, (m, q));
        let t = choose|t: int| 0 <= t < rest.len() && rest[t] == (m, q);
        assert((own + rest)[own.len() + t] == (m, q));
    }
}

/// The walk misses nothing: for every chain of nodes from the root, each one a child
/// of the one before, every mesh that the chain's last node draws is met with exactly
/// that chain as its path.
pub proof fn lemma_walk_reaches_every_chain(nodes: Seq<SceneNode>, q: Seq<usize>, m: u32)
    requires
        tree_wf(nodes),
        q.len() > 0,
        q[0] == 0,
        chain_from(nodes, q, 0),
        nodes[q.last() as int].meshes@.contains(m),
    ensures
        node_visits(nodes, 0, Seq::<usize>::empty()).contains((m, q)),
{
    assert(q.subrange(0, 0) =~= Seq::<usize>::empty());
    lemma_node_visits_complete(nodes, 0, Seq::<usize>::empty(), q, m);
}

/// The number of mesh references held by the first `n` nodes.
pub open spec fn mesh_references(nodes: Seq<SceneNode>, n: int) -> int
    decreases n,
{
    if n <= 0 {
        0
    } else {
        mesh_references(nodes, n - 1) + nodes[n - 1].meshes.len()
    }
}

spec fn sum_to(f: spec_fn(int) -> int, n: int) -> int
    decreases n,
{
    if n <= 0 {
        0
    } else {
        sum_to(f, n - 1) + f(n - 1)
    }
}

proof fn lemma_sum_add(f: spec_fn(int) -> int, g: spec_fn(int) -> int, h: spec_fn(int) -> int, n: int)
    requires
        forall|j: int| 0 <= j < n ==> #[trigger] f(j) == g(j) + h(j),
    ensures
        sum_to(f, n) == sum_to(g, n) + sum_to(h, n),
    decreases n,
{
    if n > 0 {
        lemma_sum_add(f, g, h, n - 1);
    }
}

proof fn lemma_sum_point(f: spec_fn(int) -> int, n: int, c: int)
    requires
        0 <= c < n,
        forall|j: int| 0 <= j < n && j != c ==> #[trigger] f(j) == 0,
    ensures
        sum_to(f, n) == f(c),
    decreases n,
{
    if n - 1 > c {
        lemma_sum_point(f, n - 1, c);
    } else {
        lemma_sum_zero(f, c);
    }
}

proof fn lemma_sum_zero(f: spec_fn(int) -> int, n: int)
    requires
        forall|j: int| 0 <= j < n ==> #[trigger] f(j) == 0,
    ensures
        sum_to(f, n) == 0,
    decreases n,
{
    if n > 0 {
        lemma_sum_zero(f, n - 1);
    }
}

/// The weight of the walk from node `i`, node `j` weighing `w(j)`: the number of
/// meshes met, when `w` gives each node its mesh count.
spec fn walk_weight(nodes: Seq<SceneNode>, w: spec_fn(int) -> int, i: int) -> int
    decreases nodes.len() - i, 1int, 0int,
{
    if 0 <= i < nodes.len() {
        w(i) + children_weight(nodes, w, i, nodes[i].children@.len() as int)
    } else {
        0
    }
}

/// The weight of the walks from the first `k` children of node `i`.
spec fn children_weight(nodes: Seq<SceneNode>, w: spec_fn(int) -> int, i: int, k: int) -> int
    decreases nodes.len() - i, 0int, k,
{
    if 0 <= i < nodes.len() && 0 < k <= nodes[i].children@.len() {
        let c = nodes[i].children@[k - 1] as int;
        children_weight(nodes, w, i, k - 1) + (if i < c < nodes.len() {
            walk_weight(nodes, w, c)
        } else {
            0
        })
    } else {
        0
    }
}

/// Each node weighs its number of meshes.
spec fn mesh_count_weight(nodes: Seq<SceneNode>) -> spec_fn(int) -> int {
    |j: int| nodes[j].meshes.len() as int
}

/// Node `x` weighs its number of meshes, the others nothing.
spec fn single_node_weight(nodes: Seq<SceneNode>, x: int) -> spec_fn(int) -> int {
    |j: int| if j == x { nodes[j].meshes.len() as int } else { 0 }
}

proof fn lemma_node_visits_len(nodes: Seq<SceneNode>, i: int, path: Seq<usize>)
    ensures
        node_visits(nodes, i, path).len() == walk_weight(nodes, mesh_count_weight(nodes), i),
    decreases nodes.len() - i, 1int, 0int,
{
    if 0 <= i < nodes.len() {
        let p = path.push(i as usize);
        lemma_children_visits_len(nodes, i, p, nodes[i].children@.len() as int);
    }
}

proof fn lemma_children_visits_len(nodes: Seq<SceneNode>, i: int, p: Seq<usize>, k: int)
    ensures
        children_visits(nodes, i, p, k).len() == children_weight(nodes, mesh_count_weight(nodes), i, k),
    decreases nodes.len() - i, 0int, k,
{
    if 0 <= i < nodes.len() && 0 < k <= nodes[i].children@.len() {
        lemma_children_visits_len(nodes, i, p, k - 1);
        let c = nodes[i].children@[k - 1] as int;
        if i < c < nodes.len() {
            lemma_node_visits_len(nodes, c, p);
        }
    }
}

/// The visits among `v` whose path ends at node `x`: the meshes met as meshes of `x`.
pub open spec fn visits_at(v: Seq<(u32, Seq<usize>)>, x: int) -> Seq<(u32, Seq<usize>)> {
    v.filter(ends_at(x))
}

/// Whether a visit's path ends at node `x`.
pub open spec fn ends_at(x: int) -> spec_fn((u32, Seq<usize>)) -> bool {
    |e: (u32, Seq<usize>)| e.1.len() > 0 && e.1.last() == x
}

proof fn lemma_filter_all_or_none(s: Seq<(u32, Seq<usize>)>, x: int, keep: bool)
    requires
        forall|t: int| 0 <= t < s.len() ==> #[trigger] ends_at(x)(s[t]) == keep,
    ensures
        visits_at(s, x).len() == (if keep { s.len() } else { 0 }),
    decreases s.len(),
{
    reveal(Seq::filter);
    if s.len() > 0 {
        assert(s.last() == s[s.len() - 1]);
        assert forall|t: int| 0 <= t < s.drop_last().len() implies #[trigger] ends_at(x)(s.drop_last()[t]) == keep by {
            assert(s.drop_last()[t] == s[t]);
        }
        lemma_filter_all_or_none(s.drop_last(), x, keep);
    }
}

proof fn lemma_visits_at_add(a: Seq<(u32, Seq<usize>)>, b: Seq<(u32, Seq<usize>)>, x: int)
    ensures
        visits_at(a + b, x).len() == visits_at(a, x).len() + visits_at(b, x).len(),
{
    Seq::filter_distributes_over_add(a, b, ends_at(x));
}

proof fn lemma_node_visits_at_len(nodes: Seq<SceneNode>, i: int, path: Seq<usize>, x: int)
    requires
        nodes.len() <= usize::MAX,
    ensures
        visits_at(node_visits(nodes, i, path), x).len() == walk_weight(nodes, single_node_weight(nodes, x), i),
    decreases nodes.len() - i, 1int, 0int,
{
    if 0 <= i < nodes.len() {
        let p = path.push(i as usize);
        let own = mesh_visits_of(nodes[i].meshes@, p);
        let k = nodes[i].children@.len() as int;
        lemma_children_visits_at_len(nodes, i, p, k, x);
        lemma_visits_at_add(own, children_visits(nodes, i, p, k), x);
        assert forall|t: int| 0 <= t < own.len() implies #[trigger] ends_at(x)(own[t]) == (i == x) by {
            assert(own[t].1 == p);
        }
        lemma_filter_all_or_none(own, x, i == x);
    } else {
        reveal(Seq::filter);
        assert(visits_at(Seq::<(u32, Seq<usize>)>::empty(), x) =~= Seq::<(u32, Seq<usize>)>::empty());
    }
}

proof fn lemma_children_visits_at_len(nodes: Seq<SceneNode>, i: int, p: Seq<usize>, k: int, x: int)
    requires
        nodes.len() <= usize::MAX,
    ensures
        visits_at(children_visits(nodes, i, p, k), x).len() == children_weight(nodes, single_node_weight(nodes, x), i, k),
    decreases nodes.len() - i, 0int, k,
{
    if 0 <= i < nodes.len() && 0 < k <= nodes[i].children@.len() {
        lemma_children_visits_at_len(nodes, i, p, k - 1, x);
        let c = nodes[i].children@[k - 1] as int;
        let back = if i < c < nodes.len() { node_visits(nodes, c, p) } else { Seq::empty() };
        lemma_visits_at_add(children_visits(nodes, i, p, k - 1), back, x);
        if i < c < nodes.len() {
            lemma_node_visits_at_len(nodes, c, p, x);
        } else {
            reveal(Seq::filter);
            assert(visits_at(back, x) =~= Seq::<(u32, Seq<usize>)>::empty());
        }
    } else {
        reveal(Seq::filter);
        assert(visits_at(Seq::<(u32, Seq<usize>)>::empty(), x) =~= Seq::<(u32, Seq<usize>)>::empty());
    }
}

/// Whether `j` is among the first `k` children of node `t`.
spec fn in_children(nodes: Seq<SceneNode>, t: int, k: int, j: int) -> bool {
    exists|b: int| 0 <= b < k && #[trigger] nodes[t].children@[b] == j
}

/// Whether `j` is a child of a node before `t`.
spec fn child_of_earlier(nodes: Seq<SceneNode>, t: int, j: int) -> bool {
    exists|a: int| 0 <= a < t && #[trigger] in_children(nodes, a, nodes[a].children.len() as int, j)
}

/// Node `j`'s walk weight where `j` is among the first `k` children of `t`, else nothing.
spec fn child_indicator(nodes: Seq<SceneNode>, w: spec_fn(int) -> int, t: int, k: int) -> spec_fn(int) -> int {
    |j: int| if in_children(nodes, t, k, j) { walk_weight(nodes, w, j) } else { 0 }
}

/// Summing over the node list the walks of the first `k` children of `t`.
proof fn lemma_child_indicator(nodes: Seq<SceneNode>, w: spec_fn(int) -> int, t: int, k: int)
    requires
        tree_wf(nodes),
        0 <= t < nodes.len(),
        0 <= k <= nodes[t].children.len(),
    ensures
        sum_to(child_indicator(nodes, w, t, k), nodes.len() as int) == children_weight(nodes, w, t, k),
    decreases k,
{
    let n = nodes.len() as int;
    if k == 0 {
        assert forall|j: int| 0 <= j < n implies #[trigger] child_indicator(nodes, w, t, 0)(j) == 0 by {}
        lemma_sum_zero(child_indicator(nodes, w, t, 0), n);
    } else {
        lemma_child_indicator(nodes, w, t, k - 1);
        let c = nodes[t].children@[k - 1] as int;
        assert(t < c < n);
        let f = child_indicator(nodes, w, t, k);
        let g = child_indicator(nodes, w, t, k - 1);
        let h = |j: int| if j == c { walk_weight(nodes, w, c) } else { 0 };
        assert forall|j: int| 0 <= j < n implies #[trigger] f(j) == g(j) + h(j) by {
            if j == c {
                assert(in_children(nodes, t, k, j));
                if in_children(nodes, t, k - 1, j) {
                    let b = choose|b: int| 0 <= b < k - 1 && #[trigger] nodes[t].children@[b] == j;
                    assert(nodes[t].children@[b] == nodes[t].children@[k - 1]);
                }
            } else {
                if in_children(nodes, t, k, j) {
                    let b = choose|b: int| 0 <= b < k && #[trigger] nodes[t].children@[b] == j;
                    assert(in_children(nodes, t, k - 1, j));
                }
                if in_children(nodes, t, k - 1, j) {
                    let b = choose|b: int| 0 <= b < k - 1 && #[trigger] nodes[t].children@[b] == j;
                    assert(in_children(nodes, t, k, j));
                }
            }
        }
        lemma_sum_add(f, g, h, n);
        lemma_sum_point(h, n, c);
    }
}

/// The weight still to be counted once the nodes before `t` are expanded: that of the
/// nodes before `t` themselves, and the whole walks from the nodes at or after `t`
/// whose parent comes before `t` (and from the root while it is not yet expanded).
spec fn frontier(nodes: Seq<SceneNode>, w: spec_fn(int) -> int, t: int) -> spec_fn(int) -> int {
    |j: int| (if j < t { w(j) } else { 0 })
        + (if t <= j && (j == 0 || child_of_earlier(nodes, t, j)) { walk_weight(nodes, w, j) } else { 0 })
}

proof fn lemma_frontier_step(nodes: Seq<SceneNode>, w: spec_fn(int) -> int, t: int)
    requires
        tree_wf(nodes),
        0 <= t < nodes.len(),
    ensures
        sum_to(frontier(nodes, w, t + 1), nodes.len() as int) == sum_to(frontier(nodes, w, t), nodes.len() as int),
{
    let n = nodes.len() as int;
    let len_t = nodes[t].children.len() as int;
    let f1 = frontier(nodes, w, t + 1);
    let f0 = frontier(nodes, w, t);
    let d1 = |j: int| if j == t { w(t) - walk_weight(nodes, w, t) } else { 0 };
    let d2 = child_indicator(nodes, w, t, len_t);
    let mid = |j: int| f0(j) + d1(j);
    assert forall|j: int| 0 <= j < n implies #[trigger] f1(j) == mid(j) + d2(j) by {
        if in_children(nodes, t, len_t, j) {
            let b = choose|b: int| 0 <= b < len_t && #[trigger] nodes[t].children@[b] == j;
            assert(t < j);
            if child_of_earlier(nodes, t, j) {
                let a = choose|a: int| 0 <= a < t && #[trigger] in_children(nodes, a, nodes[a].children.len() as int, j);
                let b2 = choose|b2: int| 0 <= b2 < nodes[a].children.len() && #[trigger] nodes[a].children@[b2] == j;
                assert(nodes[a].children@[b2] == nodes[t].children@[b]);
            }
            assert(child_of_earlier(nodes, t + 1, j));
        } else if j > t {
            if child_of_earlier(nodes, t + 1, j) {
                let a = choose|a: int| 0 <= a < t + 1 && #[trigger] in_children(nodes, a, nodes[a].children.len() as int, j);
                assert(a != t);
                assert(child_of_earlier(nodes, t, j));
            }
            if child_of_earlier(nodes, t, j) {
                let a = choose|a: int| 0 <= a < t && #[trigger] in_children(nodes, a, nodes[a].children.len() as int, j);
                assert(child_of_earlier(nodes, t + 1, j));
            }
        } else if j == t {
            if t > 0 {
                assert(has_parent(nodes, t));
                let (a, b) = choose|a: int, b: int|
                    0 <= a < nodes.len() && 0 <= b < nodes[a].children.len() && #[trigger] nodes[a].children@[b] == t;
                assert(a < t);
                assert(in_children(nodes, a, nodes[a].children.len() as int, t));
                assert(child_of_earlier(nodes, t, t));
            }
        }
    }
    lemma_sum_add(f1, mid, d2, n);
    lemma_sum_add(mid, f0, d1, n);
    lemma_sum_point(d1, n, t);
    lemma_child_indicator(nodes, w, t, len_t);
    assert(walk_weight(nodes, w, t) == w(t) + children_weight(nodes, w, t, len_t));
}

proof fn lemma_frontier_from_root(nodes: Seq<SceneNode>, w: spec_fn(int) -> int, t: int)
    requires
        tree_wf(nodes),
        0 <= t <= nodes.len(),
    ensures
        sum_to(frontier(nodes, w, t), nodes.len() as int) == walk_weight(nodes, w, 0),
    decreases t,
{
    let n = nodes.len() as int;
    if t == 0 {
        let f = frontier(nodes, w, 0);
        assert forall|j: int| 0 <= j < n && j != 0 implies #[trigger] f(j) == 0 by {
            if child_of_earlier(nodes, 0, j) {
                let a = choose|a: int| 0 <= a < 0 && #[trigger] in_children(nodes, a, nodes[a].children.len() as int, j);
            }
        }
        lemma_sum_point(f, n, 0);
    } else {
        lemma_frontier_from_root(nodes, w, t - 1);
        lemma_frontier_step(nodes, w, t - 1);
    }
}

/// In a tree the walk from the root weighs what all the nodes weigh together.
proof fn lemma_walk_weighs_all(nodes: Seq<SceneNode>, w: spec_fn(int) -> int)
    requires
        tree_wf(nodes),
    ensures
        walk_weight(nodes, w, 0) == sum_to(w, nodes.len() as int),
{
    let n = nodes.len() as int;
    lemma_frontier_from_root(nodes, w, n);
    let f = frontier(nodes, w, n);
    let z = |j: int| 0int;
    assert forall|j: int| 0 <= j < n implies #[trigger] f(j) == w(j) + z(j) by {}
    lemma_sum_add(f, w, z, n);
    lemma_sum_zero(z, n);
}

proof fn lemma_mesh_references_sum(nodes: Seq<SceneNode>, n: int)
    ensures
        sum_to(mesh_count_weight(nodes), n) == mesh_references(nodes, n),
    decreases n,
{
    if n > 0 {
        lemma_mesh_references_sum(nodes, n - 1);
    }
}

/// The walk meets exactly one mesh per mesh reference of the tree: as many as all the
/// nodes' mesh lists hold together.
pub proof fn lemma_one_visit_per_mesh_reference(nodes: Seq<SceneNode>)
    requires
        tree_wf(nodes),
    ensures
        node_visits(nodes, 0, Seq::<usize>::empty()).len() == mesh_references(nodes, nodes.len() as int),
{
    lemma_node_visits_len(nodes, 0, Seq::<usize>::empty());
    lemma_walk_weighs_all(nodes, mesh_count_weight(nodes));
    lemma_mesh_references_sum(nodes, nodes.len() as int);
}

/// Each node's meshes are met exactly once each: the walk has as many visits whose
/// path ends at node `x` as `x` has mesh references.
pub proof fn lemma_each_node_met_once_per_mesh(nodes: Seq<SceneNode>, x: int)
    requires
        tree_wf(nodes),
        0 <= x < nodes.len(),
    ensures
        visits_at(node_visits(nodes, 0, Seq::<usize>::empty()), x).len() == nodes[x].meshes.len(),
{
    let n = nodes.len() as int;
    let w = single_node_weight(nodes, x);
    lemma_node_visits_at_len(nodes, 0, Seq::<usize>::empty(), x);
    lemma_walk_weighs_all(nodes, w);
    lemma_sum_point(w, n, x);
}

/// Every visited mesh exists, and so does the material it names.
pub open spec fn mesh_materials_valid(visits: Seq<MeshVisit>, mesh_material: Seq<u32>, n_materials: usize) -> bool {
    forall|k: int| 0 <= k < visits.len() ==> {
        let m = (#[trigger] visits[k]).mesh_index as int;
        m < mesh_material.len() && mesh_material[m] < n_materials
    }
}

/// Whether every visited mesh exists and names an existing material.
pub fn mesh_materials_exist(visits: &Vec<MeshVisit>, mesh_material: &Vec<u32>, n_materials: usize) -> (b: bool)
    ensures
        b == mesh_materials_valid(visits@, mesh_material@, n_materials),
{
    let mut k: usize = 0;
    while k < visits.len()
        invariant
            k <= visits.len(),
            forall|j: int| 0 <= j < k ==> {
                let m = (#[trigger] visits@[j]).mesh_index as int;
                m < mesh_material.len() && mesh_material@[m] < n_materials
            },
        decreases visits.len() - k,
    {
        let m: usize = visits[k].mesh_index as usize;
        if m >= mesh_material.len() || mesh_material[m] as usize >= n_materials {
            assert(!({
                let m = visits@[k as int].mesh_index as int;
                m < mesh_material.len() && mesh_material@[m] < n_materials
            }));
            return false;
        }
        k = k + 1;
    }
    true
}

/// The (mesh, material) pair of each visit, in visit order: the material is the one
/// the mesh names.
pub fn mesh_material_pairs(visits: &Vec<MeshVisit>, mesh_material: &Vec<u32>, n_materials: usize) -> (r: Vec<(usize, usize)>)
    requires
        mesh_materials_valid(visits@, mesh_material@, n_materials),
    ensures
        r.len() == visits.len(),
        forall|k: int| 0 <= k < visits.len() ==> #[trigger] r@[k] == (
            visits@[k].mesh_index as usize,
            mesh_material@[visits@[k].mesh_index as int] as usize,
        ),
        forall|k: int| 0 <= k < visits.len() ==> (#[trigger] r@[k]).1 < n_materials,
{
    let mut r: Vec<(usize, usize)> = Vec::new();
    let mut k: usize = 0;
    while k < visits.len()
        invariant
            k <= visits.len(),
            r.len() == k,
            mesh_materials_valid(visits@, mesh_material@, n_materials),
            forall|j: int| 0 <= j < k ==> #[trigger] r@[j] == (
                visits@[j].mesh_index as usize,
                mesh_material@[visits@[j].mesh_index as int] as usize,
            ),
        decreases visits.len() - k,
    {
        let m: usize = visits[k].mesh_index as usize;
        assert(m < mesh_material.len() && mesh_material@[m as int] < n_materials) by {
            assert(visits@[k as int].mesh_index as int == m);
        }
        r.push((m, mesh_material[m] as usize));
        k = k + 1;
    }
    r
}

} // verus!
