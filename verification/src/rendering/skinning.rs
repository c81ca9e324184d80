use vstd::prelude::*;

verus! {

/// The visits of a walk down the node hierarchy from `node`, each a node and
/// the node it was reached from: the node itself, then the walks from each of
/// its children in order, at most `depth` levels deep. Indices past the last
/// node are skipped.
pub open spec fn walk_node(children: Seq<Vec<usize>>, node: usize, parent: Option<usize>, depth: nat) -> Seq<
    (usize, Option<usize>),
>
    decreases depth, 0int,
{
    if depth == 0 || node >= children.len() {
        Seq::empty()
    } else {
        seq![(node, parent)] + walk_list(
            children,
            children[node as int]@,
            children[node as int]@.len() as int,
            Some(node),
            (depth - 1) as nat,
        )
    }
}

/// The walks from the first `count` nodes of `list`, one after the other, all
/// reached from `parent`.
pub open spec fn walk_list(
    children: Seq<Vec<usize>>,
    list: Seq<usize>,
    count: int,
    parent: Option<usize>,
    depth: nat,
) -> Seq<(usize, Option<usize>)>
    decreases depth, count,
{
    if count <= 0 || count > list.len() {
        Seq::empty()
    } else {
        walk_list(children, list, count - 1, parent, depth) + walk_node(children, list[count - 1], parent, depth)
    }
}

fn walk_into(
    children: &Vec<Vec<usize>>,
    node: usize,
    parent: Option<usize>,
    depth: usize,
    out: &mut Vec<(usize, Option<usize>)>,
)
    ensures
        final(out)@ == old(out)@ + walk_node(children@, node, parent, depth as nat),
    decreases depth, 0int,
{
    if depth == 0 || node >= children.len() {
        assert(old(out)@ + walk_node(children@, node, parent, depth as nat) =~= old(out)@);
        return;
    }
    let ghost start = out@;
    out.push((node, parent));
    let list = &children[node];
    let n = list.len();
    let mut k: usize = 0;
    while k < n
        invariant
            node < children.len(),
            depth > 0,
            list == &children@[node as int],
            n == list.len(),
            k <= n,
            out@ == start + seq![(node, parent)] + walk_list(
                children@,
                list@,
                k as int,
                Some(node),
                (depth - 1) as nat,
            ),
        decreases n - k,
    {
        walk_into(children, list[k], Some(node), depth - 1, out);
        k += 1;
        assert(out@ =~= start + seq![(node, parent)] + walk_list(
            children@,
            list@,
            k as int,
            Some(node),
            (depth - 1) as nat,
        ));
    }
    assert(out@ =~= start + walk_node(children@, node, parent, depth as nat));
}

/// The order in which the global transforms of a node hierarchy are updated:
/// from each root in turn, a depth-first walk that visits a node, then the
/// walks from each of its children. Each visit is a node and the node it was
/// reached from (`None` at a root), whose global transform it builds on.
/// `children[k]` lists the children of node `k`; indices past the last node
/// are skipped, and the walk goes at most `children.len()` levels deep, which
/// a hierarchy without cycles never reaches.
pub fn hierarchy_walk(children: &Vec<Vec<usize>>, roots: &Vec<usize>) -> (r: Vec<(usize, Option<usize>)>)
    ensures
        r@ == walk_list(children@, roots@, roots@.len() as int, None, children@.len()),
{
    let mut out: Vec<(usize, Option<usize>)> = Vec::new();
    let n = roots.len();
    let depth = children.len();
    let mut k: usize = 0;
    while k < n
        invariant
            n == roots.len(),
            depth == children.len(),
            k <= n,
            out@ == walk_list(children@, roots@, k as int, None, depth as nat),
        decreases n - k,
    {
        walk_into(children, roots[k], None, depth, &mut out);
        k += 1;
    }
    out
}

/// A visit `(n, p)` of a walk over `children` is sound: `n` is a node, and
/// where it was reached from a node `q`, `q` is a node that lists `n` as a
/// child.
pub open spec fn sound_visit(children: Seq<Vec<usize>>, visit: (usize, Option<usize>)) -> bool {
    &&& visit.0 < children.len()
    &&& match visit.1 {
        Some(q) => q < children.len() && children[q as int]@.contains(visit.0),
        None => true,
    }
}

proof fn lemma_walk_node(children: Seq<Vec<usize>>, node: usize, parent: Option<usize>, depth: nat)
    requires
        parent matches Some(q) ==> q < children.len() && children[q as int]@.contains(node),
    ensures
        forall|k: int|
            0 <= k < walk_node(children, node, parent, depth).len() ==> {
                let v = #[trigger] walk_node(children, node, parent, depth)[k];
                &&& sound_visit(children, v)
                &&& v.1 is None ==> parent is None && v.0 == node
            },
    decreases depth, 0int,
{
    if depth > 0 && node < children.len() {
        let list = children[node as int]@;
        lemma_walk_list(children, list, list.len() as int, Some(node), (depth - 1) as nat);
        let rest = walk_list(children, list, list.len() as int, Some(node), (depth - 1) as nat);
        let all = walk_node(children, node, parent, depth);
        assert(all == seq![(node, parent)] + rest);
        assert forall|k: int| 0 <= k < all.len() implies {
            let v = #[trigger] all[k];
            &&& sound_visit(children, v)
            &&& v.1 is None ==> parent is None && v.0 == node
        } by {
            if k > 0 {
                assert(all[k] == rest[k - 1]);
            }
        }
    }
}

proof fn lemma_walk_list(
    children: Seq<Vec<usize>>,
    list: Seq<usize>,
    count: int,
    parent: Option<usize>,
    depth: nat,
)
    requires
        parent matches Some(q) ==> q < children.len() && list == children[q as int]@,
    ensures
        forall|k: int|
            0 <= k < walk_list(children, list, count, parent, depth).len() ==> {
                let v = #[trigger] walk_list(children, list, count, parent, depth)[k];
                &&& sound_visit(children, v)
                &&& v.1 is None ==> parent is None && list.contains(v.0)
            },
    decreases depth, count,
{
    if 0 < count <= list.len() {
        lemma_walk_list(children, list, count - 1, parent, depth);
        lemma_walk_node(children, list[count - 1], parent, depth);
        let prev = walk_list(children, list, count - 1, parent, depth);
        let last = walk_node(children, list[count - 1], parent, depth);
        let all = walk_list(children, list, count, parent, depth);
        assert(all == prev + last);
        assert forall|k: int| 0 <= k < all.len() implies {
            let v = #[trigger] all[k];
            &&& sound_visit(children, v)
            &&& v.1 is None ==> parent is None && list.contains(v.0)
        } by {
            if k < prev.len() {
                assert(all[k] == prev[k]);
            } else {
                assert(all[k] == last[k - prev.len()]);
            }
        }
    }
}

/// Law: every visit of a hierarchy walk names a node, and builds on the node
/// it was reached from only where that node lists it as a child; a visit
/// reached from no node is one of the roots.
pub proof fn law_hierarchy_walk_follows_children(children: Seq<Vec<usize>>, roots: Seq<usize>)
    ensures
        forall|k: int|
            0 <= k < walk_list(children, roots, roots.len() as int, None, children.len()).len() ==> {
                let v = #[trigger] walk_list(children, roots, roots.len() as int, None, children.len())[k];
                &&& sound_visit(children, v)
                &&& v.1 is None ==> roots.contains(v.0)
            },
{
    lemma_walk_list(children, roots, roots.len() as int, None, children.len());
}

/// The hierarchy has no cycles, as witnessed by `rank`: every child ranks
/// below the node that lists it, and every rank is below the node count.
pub open spec fn ranked_hierarchy(children: Seq<Vec<usize>>, rank: spec_fn(usize) -> nat) -> bool {
    &&& forall|k: usize| k < children.len() ==> #[trigger] rank(k) < children.len()
    &&& forall|q: usize, n: usize|
        q < children.len() && n < children.len() && #[trigger] children[q as int]@.contains(n) ==> rank(n)
            < #[trigger] rank(q)
}

proof fn lemma_node_depth_unused(
    children: Seq<Vec<usize>>,
    rank: spec_fn(usize) -> nat,
    node: usize,
    parent: Option<usize>,
    d1: nat,
    d2: nat,
)
    requires
        ranked_hierarchy(children, rank),
        node < children.len() ==> rank(node) < d1 && rank(node) < d2,
    ensures
        walk_node(children, node, parent, d1) == walk_node(children, node, parent, d2),
    decreases d1, 0int,
{
    if node < children.len() {
        let list = children[node as int]@;
        assert forall|i: int| 0 <= i < list.len() && list[i] < children.len() implies rank(list[i]) < (d1 - 1) as nat
            && rank(list[i]) < (d2 - 1) as nat by {
            assert(list.contains(list[i]));
            assert(rank(list[i]) < rank(node));
        }
        lemma_list_depth_unused(children, rank, list, list.len() as int, Some(node), (d1 - 1) as nat, (d2 - 1) as nat);
    }
}

proof fn lemma_list_depth_unused(
    children: Seq<Vec<usize>>,
    rank: spec_fn(usize) -> nat,
    list: Seq<usize>,
    count: int,
    parent: Option<usize>,
    d1: nat,
    d2: nat,
)
    requires
        ranked_hierarchy(children, rank),
        forall|i: int| 0 <= i < list.len() && list[i] < children.len() ==> rank(list[i]) < d1 && rank(list[i]) < d2,
    ensures
        walk_list(children, list, count, parent, d1) == walk_list(children, list, count, parent, d2),
    decreases d1, count,
{
    if 0 < count <= list.len() {
        lemma_list_depth_unused(children, rank, list, count - 1, parent, d1, d2);
        lemma_node_depth_unused(children, rank, list[count - 1], parent, d1, d2);
    }
}

/// Law: on a hierarchy without cycles the depth limit of the walk never cuts
/// it short: walking deeper than the node count gives the same visits.
pub proof fn law_hierarchy_walk_depth_unused(
    children: Seq<Vec<usize>>,
    roots: Seq<usize>,
    rank: spec_fn(usize) -> nat,
    depth: nat,
)
    requires
        ranked_hierarchy(children, rank),
        depth >= children.len(),
    ensures
        walk_list(children, roots, roots.len() as int, None, depth) == walk_list(
            children,
            roots,
            roots.len() as int,
            None,
            children.len(),
        ),
{
    lemma_list_depth_unused(children, rank, roots, roots.len() as int, None, depth, children.len());
}

} // verus!
