use crate::text::{contains_text, lowercase_of, text_contains, to_lowercase};
use vstd::prelude::*;

verus! {

/// `k` is the first node whose children list `node_idx`.
pub open spec fn is_first_parent(children: Seq<Vec<usize>>, node_idx: usize, k: int) -> bool {
    &&& 0 <= k < children.len()
    &&& children[k]@.contains(node_idx)
    &&& forall|j: int| 0 <= j < k ==> !(#[trigger] children[j])@.contains(node_idx)
}

/// The parent of node `node_idx`, given the children list of every node:
/// the first node that lists it as a child; a node that no node lists is its
/// own parent.
pub fn parent_index(children: &Vec<Vec<usize>>, node_idx: usize) -> (r: usize)
    ensures
        is_first_parent(children@, node_idx, r as int) || (r == node_idx && forall|j: int|
            0 <= j < children@.len() ==> !(#[trigger] children@[j])@.contains(node_idx)),
{
    let n = children.len();
    let mut k: usize = 0;
    while k < n
        invariant
            n == children.len(),
            k <= n,
            forall|j: int| 0 <= j < k ==> !(#[trigger] children@[j])@.contains(node_idx),
        decreases n - k,
    {
        let list = &children[k];
        let m = list.len();
        let mut i: usize = 0;
        while i < m
            invariant
                n == children.len(),
                k < n,
                list == &children@[k as int],
                forall|j: int| 0 <= j < k ==> !(#[trigger] children@[j])@.contains(node_idx),
                m == list.len(),
                i <= m,
                forall|j: int| 0 <= j < i ==> list@[j] != node_idx,
            decreases m - i,
        {
            if list[i] == node_idx {
                assert(list@.contains(node_idx)) by {
                    assert(list@[i as int] == node_idx);
                }
                return k;
            }
            i += 1;
        }
        assert(!list@.contains(node_idx));
        k += 1;
    }
    node_idx
}

/// Spring bones whose lowercased name holds one of these skip the mesh-hull
/// collision by default: busts, skirts, sleeves, breasts and chests.
pub open spec fn excluded_name(lower: Seq<char>) -> bool {
    contains_text(lower, "bust"@) || contains_text(lower, "skirt"@) || contains_text(lower, "sleeve"@)
        || contains_text(lower, "breast"@) || contains_text(lower, "chest"@)
}

/// Whether a spring bone named `name` starts out without a mesh collision
/// hull (a bone without a name keeps its hull).
pub fn excluded_by_default(name: &Option<String>) -> (r: bool)
    ensures
        r == (match name {
            Some(s) => excluded_name(lowercase_of(s@)),
            None => false,
        }),
{
    match name {
        Some(s) => {
            let n = to_lowercase(s.as_str());
            text_contains(n.as_str(), "bust") || text_contains(n.as_str(), "skirt") || text_contains(
                n.as_str(),
                "sleeve",
            ) || text_contains(n.as_str(), "breast") || text_contains(n.as_str(), "chest")
        },
        None => false,
    }
}

/// Body bones that get a collision hull for the hair: those whose lowercased
/// name holds "head", "neck", "chest", "spine", "shoulder", "arm", "hand" or "hair".
pub open spec fn body_hull_name(lower: Seq<char>) -> bool {
    contains_text(lower, "head"@) || contains_text(lower, "neck"@) || contains_text(lower, "chest"@)
        || contains_text(lower, "spine"@) || contains_text(lower, "shoulder"@) || contains_text(lower, "arm"@)
        || contains_text(lower, "hand"@) || contains_text(lower, "hair"@)
}

/// The hull role of a bone with lowercased name `lower`: `Some(is_head)` for
/// a body hull bone, `None` for any other.
pub open spec fn hull_role(lower: Seq<char>) -> Option<bool> {
    if body_hull_name(lower) {
        Some(contains_text(lower, "head"@))
    } else {
        None
    }
}

/// How a bone named `name` takes part in the body collision hulls: `None`
/// when it gets no hull, `Some(is_head)` when it gets one (the head bone's
/// points are subsampled).
pub fn body_hull_role(name: &str) -> (r: Option<bool>)
    ensures
        r == hull_role(lowercase_of(name@)),
{
    let lower = to_lowercase(name);
    let l = lower.as_str();
    let is_head = text_contains(l, "head");
    let wanted = is_head || text_contains(l, "neck") || text_contains(l, "chest") || text_contains(l, "spine")
        || text_contains(l, "shoulder") || text_contains(l, "arm") || text_contains(l, "hand") || text_contains(
        l,
        "hair",
    );
    if wanted {
        Some(is_head)
    } else {
        None
    }
}

/// Law: a bone whose lowercased name holds any of "head", "neck", "chest",
/// "spine", "shoulder", "arm", "hand" or "hair" gets a body hull, subsampled
/// exactly when the name holds "head"; a bone whose name holds none of them
/// gets no hull.
pub proof fn law_body_hull_words(lower: Seq<char>)
    ensures
        contains_text(lower, "head"@) || contains_text(lower, "neck"@) || contains_text(lower, "chest"@)
            || contains_text(lower, "spine"@) || contains_text(lower, "shoulder"@) || contains_text(lower, "arm"@)
            || contains_text(lower, "hand"@) || contains_text(lower, "hair"@) ==> hull_role(lower) == Some(
            contains_text(lower, "head"@),
        ),
        !(contains_text(lower, "head"@) || contains_text(lower, "neck"@) || contains_text(lower, "chest"@)
            || contains_text(lower, "spine"@) || contains_text(lower, "shoulder"@) || contains_text(lower, "arm"@)
            || contains_text(lower, "hand"@) || contains_text(lower, "hair"@)) ==> hull_role(lower) is None,
{
}

/// Law: busts, skirts, sleeves, breasts and chests start out without a mesh
/// collision hull; a bone whose lowercased name holds none of those words
/// keeps its hull.
pub proof fn law_excluded_words(lower: Seq<char>)
    ensures
        excluded_name(lower) <==> (contains_text(lower, "bust"@) || contains_text(lower, "skirt"@) || contains_text(
            lower,
            "sleeve"@,
        ) || contains_text(lower, "breast"@) || contains_text(lower, "chest"@)),
{
}

/// Law: the head's stride keeps about 2000 of its points: at least 2000 and
/// fewer than 4000 when it has more than 2000; every other bone keeps all.
pub proof fn law_head_keeps_about_2000_points(point_count: nat, is_head: bool)
    ensures
        sample_stride(point_count, is_head) >= 1,
        is_head && point_count > 2000 ==> 2000 * sample_stride(point_count, is_head) <= point_count < 2000 * (
        sample_stride(point_count, is_head) + 1),
        !(is_head && point_count > 2000) ==> sample_stride(point_count, is_head) == 1,
{
    if is_head && point_count > 2000 {
        let s = point_count / 2000;
        assert(2000 * s <= point_count < 2000 * (s + 1)) by (nonlinear_arith)
            requires
                s == point_count / 2000,
        ;
        assert(s >= 1);
    }
}

/// The head bone influences a very large number of vertices: its hull keeps
/// one point in `stride` so that about 2000 remain. Other bones keep all.
pub open spec fn sample_stride(point_count: nat, is_head: bool) -> nat {
    if is_head && point_count > 2000 {
        point_count / 2000
    } else {
        1
    }
}

/// The step between the hull points kept for a bone with `point_count`
/// candidate points; never 0.
pub fn hull_sample_stride(point_count: usize, is_head: bool) -> (r: usize)
    ensures
        r == sample_stride(point_count as nat, is_head),
        r >= 1,
{
    if is_head && point_count > 2000 {
        point_count / 2000
    } else {
        1
    }
}

/// The colliders a bone group collides with: for each collider group it
/// refers to (in order), that group's colliders, skipping references that are
/// missing or out of range.
pub open spec fn active_colliders_of(groups: Seq<Vec<usize>>, refs: Seq<Option<usize>>) -> Seq<usize>
    decreases refs.len(),
{
    if refs.len() == 0 {
        Seq::empty()
    } else {
        let prev = active_colliders_of(groups, refs.drop_last());
        match refs.last() {
            Some(g) => if g < groups.len() {
                prev + groups[g as int]@
            } else {
                prev
            },
            None => prev,
        }
    }
}

/// Gathers the colliders of the collider groups a bone group refers to.
pub fn active_colliders(groups: &Vec<Vec<usize>>, refs: &Vec<Option<usize>>) -> (r: Vec<usize>)
    ensures
        r@ == active_colliders_of(groups@, refs@),
{
    let mut out: Vec<usize> = Vec::new();
    let n = refs.len();
    let mut i: usize = 0;
    while i < n
        invariant
            n == refs.len(),
            i <= n,
            out@ == active_colliders_of(groups@, refs@.take(i as int)),
        decreases n - i,
    {
        assert(refs@.take(i as int + 1).drop_last() =~= refs@.take(i as int));
        match refs[i] {
            Some(g) => {
                if g < groups.len() {
                    let group = &groups[g];
                    let ghost before = out@;
                    let m = group.len();
                    let mut j: usize = 0;
                    while j < m
                        invariant
                            m == group.len(),
                            j <= m,
                            out@ == before + group@.take(j as int),
                        decreases m - j,
                    {
                        out.push(group[j]);
                        assert(group@.take(j as int + 1) =~= group@.take(j as int).push(group@[j as int]));
                        assert(before + group@.take(j as int + 1) =~= (before + group@.take(j as int)).push(group@[j as int]));
                        j += 1;
                    }
                    assert(group@.take(m as int) =~= group@);
                }
            },
            None => {},
        }
        i += 1;
    }
    assert(refs@.take(n as int) =~= refs@);
    out
}

/// The slot of bone `node_idx` in a skin's joint list: the first position
/// that holds it, or `None` where the skin does not use the bone.
pub fn joint_slot(joints: &Vec<usize>, node_idx: usize) -> (r: Option<usize>)
    ensures
        match r {
            Some(k) => {
                &&& k < joints@.len()
                &&& joints@[k as int] == node_idx
                &&& forall|j: int| 0 <= j < k ==> joints@[j] != node_idx
            },
            None => !joints@.contains(node_idx),
        },
{
    let n = joints.len();
    let mut k: usize = 0;
    while k < n
        invariant
            n == joints.len(),
            k <= n,
            forall|j: int| 0 <= j < k ==> joints@[j] != node_idx,
        decreases n - k,
    {
        if joints[k] == node_idx {
            return Some(k);
        }
        k += 1;
    }
    None
}

/// The 16-bit index buffer of a triangle mesh: the corners of each triangle in
/// order, each index cut to its low 16 bits.
pub fn triangle_index_buffer(triangles: &Vec<[u32; 3]>) -> (r: Vec<u16>)
    ensures
        r@.len() == 3 * triangles@.len(),
        forall|k: int, c: int|
            0 <= k < triangles@.len() && 0 <= c < 3 ==> r@[3 * k + c] == #[trigger] triangles@[k]@[c] as u16,
{
    let n = triangles.len();
    let mut out: Vec<u16> = Vec::new();
    let mut k: usize = 0;
    while k < n
        invariant
            n == triangles.len(),
            k <= n,
            out@.len() == 3 * k,
            forall|t: int, c: int|
                0 <= t < k && 0 <= c < 3 ==> out@[3 * t + c] == #[trigger] triangles@[t]@[c] as u16,
        decreases n - k,
    {
        let tri = triangles[k];
        out.push(tri[0] as u16);
        out.push(tri[1] as u16);
        out.push(tri[2] as u16);
        k += 1;
    }
    out
}

/// The vertex of a UV sphere at latitude ring `i`, longitude column `j`:
/// rings are laid out one after the other, `longitudes + 1` vertices each.
pub open spec fn sphere_vertex(longitudes: int, i: int, j: int) -> int {
    i * (longitudes + 1) + j
}

/// The two triangles of the quad between rings `i`, `i + 1` and columns `j`, `j + 1`.
pub open spec fn sphere_cell(longitudes: int, i: int, j: int) -> Seq<u16> {
    let first = sphere_vertex(longitudes, i, j);
    let second = first + longitudes + 1;
    seq![first as u16, second as u16, (first + 1) as u16, second as u16, (second + 1) as u16, (first + 1) as u16]
}

/// The triangles of the first `columns` quads of ring band `i`.
pub open spec fn sphere_band(longitudes: int, i: int, columns: int) -> Seq<u16>
    decreases columns,
{
    if columns <= 0 {
        Seq::empty()
    } else {
        sphere_band(longitudes, i, columns - 1) + sphere_cell(longitudes, i, columns - 1)
    }
}

/// The index buffer of a UV sphere: band by band, quad by quad.
pub open spec fn sphere_indices(bands: int, longitudes: int) -> Seq<u16>
    decreases bands,
{
    if bands <= 0 {
        Seq::empty()
    } else {
        sphere_indices(bands - 1, longitudes) + sphere_band(longitudes, bands - 1, longitudes)
    }
}

proof fn lemma_sphere_vertex_bounds(latitudes: int, longitudes: int, i: int, j: int)
    requires
        0 <= i < latitudes,
        0 <= j < longitudes,
    ensures
        0 <= sphere_vertex(longitudes, i, j),
        sphere_vertex(longitudes, i, j) + longitudes + 2 < (latitudes + 1) * (longitudes + 1),
{
    assert(i * (longitudes + 1) >= 0) by (nonlinear_arith)
        requires
            i >= 0,
            longitudes >= 0,
    ;
    assert(i * (longitudes + 1) <= (latitudes - 1) * (longitudes + 1)) by (nonlinear_arith)
        requires
            i <= latitudes - 1,
            longitudes >= 0,
    ;
    assert((latitudes - 1) * (longitudes + 1) + longitudes + longitudes + 1 < (latitudes + 1) * (longitudes
        + 1)) by (nonlinear_arith)
        requires
            longitudes >= 0,
    ;
}

/// Builds the triangle index buffer of a UV sphere with `latitudes` bands and
/// `longitudes` columns (the vertices are laid out ring by ring, `longitudes + 1`
/// per ring): two triangles per quad, band by band, `6 * latitudes * longitudes`
/// indices in all. Each index is cut to 16 bits, so on spheres of more than
/// 65536 vertices they wrap; the vertex count must fit in `usize`.
pub fn uv_sphere_indices(latitudes: usize, longitudes: usize) -> (r: Vec<u16>)
    requires
        (latitudes + 1) * (longitudes + 1) <= usize::MAX,
    ensures
        r@ == sphere_indices(latitudes as int, longitudes as int),
        r@.len() == 6 * latitudes * longitudes,
{
    proof {
        lemma_sphere_indices_len(latitudes as int, longitudes as int);
    }
    let mut indices: Vec<u16> = Vec::new();
    let mut i: usize = 0;
    while i < latitudes
        invariant
            i <= latitudes,
            (latitudes + 1) * (longitudes + 1) <= usize::MAX,
            indices@ == sphere_indices(i as int, longitudes as int),
        decreases latitudes - i,
    {
        let mut j: usize = 0;
        while j < longitudes
            invariant
                i < latitudes,
                j <= longitudes,
                (latitudes + 1) * (longitudes + 1) <= usize::MAX,
                indices@ == sphere_indices(i as int, longitudes as int) + sphere_band(longitudes as int, i as int, j as int),
            decreases longitudes - j,
        {
            proof {
                lemma_sphere_vertex_bounds(latitudes as int, longitudes as int, i as int, j as int);
            }
            let first_index: usize = i * (longitudes + 1) + j;
            let second_index: usize = first_index + longitudes + 1;
            let first = first_index as u16;
            let second = second_index as u16;
            let after_first = (first_index + 1) as u16;
            let after_second = (second_index + 1) as u16;
            let ghost before = indices@;
            indices.push(first);
            indices.push(second);
            indices.push(after_first);
            indices.push(second);
            indices.push(after_second);
            indices.push(after_first);
            assert(indices@ =~= before + sphere_cell(longitudes as int, i as int, j as int));
            j += 1;
        }
        i += 1;
    }
    indices
}

/// Law: every index of the sphere's buffer names one of its
/// `(latitudes + 1) * (longitudes + 1)` vertices.
pub proof fn law_sphere_indices_in_range(latitudes: nat, longitudes: nat, bands: nat)
    requires
        bands <= latitudes,
        (latitudes + 1) * (longitudes + 1) <= 65536,
    ensures
        forall|k: int|
            0 <= k < sphere_indices(bands as int, longitudes as int).len() ==> (#[trigger] sphere_indices(
                bands as int,
                longitudes as int,
            )[k] as int) < (latitudes + 1) * (longitudes + 1),
    decreases bands,
{
    if bands > 0 {
        law_sphere_indices_in_range(latitudes, longitudes, (bands - 1) as nat);
        lemma_band_in_range(latitudes as int, longitudes as int, bands - 1, longitudes as int);
        let prev = sphere_indices(bands - 1, longitudes as int);
        let band = sphere_band(longitudes as int, bands - 1, longitudes as int);
        assert forall|k: int| 0 <= k < (prev + band).len() implies ((#[trigger] (prev + band)[k]) as int) < (
        latitudes + 1) * (longitudes + 1) by {
            if k < prev.len() {
                assert((prev + band)[k] == prev[k]);
            } else {
                assert((prev + band)[k] == band[k - prev.len()]);
            }
        }
    }
}

proof fn lemma_sphere_indices_len(bands: int, longitudes: int)
    requires
        bands >= 0,
        longitudes >= 0,
    ensures
        sphere_indices(bands, longitudes).len() == 6 * bands * longitudes,
    decreases bands,
{
    lemma_band_len(longitudes, bands - 1, longitudes);
    if bands > 0 {
        lemma_sphere_indices_len(bands - 1, longitudes);
        assert(6 * (bands - 1) * longitudes + 6 * longitudes == 6 * bands * longitudes) by (nonlinear_arith);
    } else {
        assert(6 * bands * longitudes == 0) by (nonlinear_arith)
            requires
                bands == 0,
        ;
    }
}

proof fn lemma_band_len(longitudes: int, i: int, columns: int)
    requires
        columns >= 0,
    ensures
        sphere_band(longitudes, i, columns).len() == 6 * columns,
    decreases columns,
{
    if columns > 0 {
        lemma_band_len(longitudes, i, columns - 1);
    }
}

proof fn lemma_band_in_range(latitudes: int, longitudes: int, i: int, columns: int)
    requires
        0 <= i < latitudes,
        0 <= columns <= longitudes,
        (latitudes + 1) * (longitudes + 1) <= 65536,
    ensures
        forall|k: int|
            0 <= k < sphere_band(longitudes, i, columns).len() ==> ((#[trigger] sphere_band(longitudes, i, columns)[k])
                as int) < (latitudes + 1) * (longitudes + 1),
    decreases columns,
{
    if columns > 0 {
        lemma_band_in_range(latitudes, longitudes, i, columns - 1);
        lemma_sphere_vertex_bounds(latitudes, longitudes, i, columns - 1);
        let prev = sphere_band(longitudes, i, columns - 1);
        let cell = sphere_cell(longitudes, i, columns - 1);
        assert forall|k: int| 0 <= k < (prev + cell).len() implies ((#[trigger] (prev + cell)[k]) as int) < (
        latitudes + 1) * (longitudes + 1) by {
            if k < prev.len() {
                assert((prev + cell)[k] == prev[k]);
            } else {
                assert((prev + cell)[k] == cell[k - prev.len()]);
            }
        }
    }
}

} // verus!
