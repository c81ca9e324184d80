use vstd::prelude::*;

verus! {

/// A mesh primitive's index buffer read as 32-bit indices, each cut to its
/// low 16 bits.
pub open spec fn truncated_indices(read: Seq<u32>) -> Seq<u16> {
    Seq::new(read.len(), |k: int| read[k] as u16)
}

/// The index buffer of a primitive that has none: `0, 1, 2, ...` up to the
/// vertex count cut to 16 bits.
pub open spec fn sequential_indices(vertex_count: usize) -> Seq<u16> {
    Seq::new((vertex_count as u16) as nat, |k: int| k as u16)
}

/// The 16-bit index buffer of a mesh primitive: the indices it was read with,
/// each cut to 16 bits, or, where it has none, one index per vertex in order
/// (the vertex count cut to 16 bits).
pub fn mesh_index_buffer(read: Option<Vec<u32>>, vertex_count: usize) -> (r: Vec<u16>)
    ensures
        r@ == match read {
            Some(v) => truncated_indices(v@),
            None => sequential_indices(vertex_count),
        },
{
    let mut out: Vec<u16> = Vec::new();
    match read {
        Some(v) => {
            let n = v.len();
            let mut k: usize = 0;
            while k < n
                invariant
                    n == v.len(),
                    k <= n,
                    out@ == truncated_indices(v@).take(k as int),
                decreases n - k,
            {
                out.push(v[k] as u16);
                k += 1;
                assert(out@ =~= truncated_indices(v@).take(k as int));
            }
            assert(out@ =~= truncated_indices(v@));
        },
        None => {
            let count = vertex_count as u16;
            let mut k: u16 = 0;
            while k < count
                invariant
                    count == vertex_count as u16,
                    k <= count,
                    out@ == sequential_indices(vertex_count).take(k as int),
                decreases count - k,
            {
                out.push(k);
                k += 1;
                assert(out@ =~= sequential_indices(vertex_count).take(k as int));
            }
            assert(out@ =~= sequential_indices(vertex_count));
        },
    }
    out
}

/// `k` is the first node that draws mesh `mesh`; each node is given as the
/// mesh it draws and the skin it is bound to.
pub open spec fn is_first_mesh_node(nodes: Seq<(Option<usize>, Option<usize>)>, mesh: usize, k: int) -> bool {
    &&& 0 <= k < nodes.len()
    &&& nodes[k].0 == Some(mesh)
    &&& forall|j: int| 0 <= j < k ==> (#[trigger] nodes[j]).0 != Some(mesh)
}

/// The skin that a mesh is drawn with: that of the first node drawing it, and
/// the first skin (0) where that node has no skin or no node draws the mesh.
pub fn mesh_skin_index(nodes: &Vec<(Option<usize>, Option<usize>)>, mesh: usize) -> (r: usize)
    ensures
        forall|k: int|
            is_first_mesh_node(nodes@, mesh, k) ==> r == match nodes@[k].1 {
                Some(s) => s,
                None => 0,
            },
        (forall|k: int| 0 <= k < nodes@.len() ==> (#[trigger] nodes@[k]).0 != Some(mesh)) ==> r == 0,
{
    let n = nodes.len();
    let mut k: usize = 0;
    while k < n
        invariant
            n == nodes.len(),
            k <= n,
            forall|j: int| 0 <= j < k ==> (#[trigger] nodes@[j]).0 != Some(mesh),
        decreases n - k,
    {
        if nodes[k].0 == Some(mesh) {
            assert(is_first_mesh_node(nodes@, mesh, k as int));
            assert forall|j: int| is_first_mesh_node(nodes@, mesh, j) implies j == k by {
                if j < k {
                    assert(nodes@[j].0 != Some(mesh));
                } else if j > k {
                    assert(nodes@[k as int].0 == Some(mesh));
                }
            }
            return match nodes[k].1 {
                Some(s) => s,
                None => 0,
            };
        }
        k += 1;
    }
    0
}

} // verus!
