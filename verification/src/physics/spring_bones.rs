use vstd::prelude::*;

verus! {

/// Particles `i` and `j` (with `i < j`) push each other apart in the
/// self-collision pass: both take part in mesh collision and they belong to
/// different spring chains (a chain never collides with itself).
pub open spec fn collides_with(groups: Seq<usize>, excluded: Seq<bool>, i: int, j: int) -> bool {
    &&& 0 <= i < j < groups.len()
    &&& !excluded[i]
    &&& !excluded[j]
    &&& groups[i] != groups[j]
}

/// The pairs `(i, j)` with `i < j < end` that collide, in increasing `j`.
pub open spec fn row_pairs(groups: Seq<usize>, excluded: Seq<bool>, i: int, end: int) -> Seq<(usize, usize)>
    decreases end - i,
{
    if end <= i + 1 {
        Seq::empty()
    } else {
        row_pairs(groups, excluded, i, end - 1) + if collides_with(groups, excluded, i, end - 1) {
            seq![(i as usize, (end - 1) as usize)]
        } else {
            Seq::empty()
        }
    }
}

/// The colliding pairs whose first particle is below `rows`, row by row: the
/// order in which the self-collision pass visits them.
pub open spec fn collision_pairs(groups: Seq<usize>, excluded: Seq<bool>, rows: int) -> Seq<(usize, usize)>
    decreases rows,
{
    if rows <= 0 {
        Seq::empty()
    } else {
        collision_pairs(groups, excluded, rows - 1) + row_pairs(groups, excluded, rows - 1, groups.len() as int)
    }
}

/// The particle pairs that the self-collision pass of a spring-bone step
/// visits, in its order: for each particle `i` that is not excluded from mesh
/// collision, each later particle `j` that is not excluded either and belongs
/// to another chain. `groups[k]` is the chain of particle `k`, `excluded[k]`
/// whether it skips mesh collision.
pub fn self_collision_pairs(groups: &Vec<usize>, excluded: &Vec<bool>) -> (r: Vec<(usize, usize)>)
    requires
        groups.len() == excluded.len(),
    ensures
        r@ == collision_pairs(groups@, excluded@, groups@.len() as int),
{
    let n = groups.len();
    let mut pairs: Vec<(usize, usize)> = Vec::new();
    let mut i: usize = 0;
    while i < n
        invariant
            n == groups.len(),
            n == excluded.len(),
            i <= n,
            pairs@ == collision_pairs(groups@, excluded@, i as int),
        decreases n - i,
    {
        let ghost done = pairs@;
        if !excluded[i] {
            let mut j: usize = i + 1;
            while j < n
                invariant
                    n == groups.len(),
                    n == excluded.len(),
                    i < n,
                    !excluded@[i as int],
                    i + 1 <= j <= n,
                    pairs@ == done + row_pairs(groups@, excluded@, i as int, j as int),
                decreases n - j,
            {
                let ghost before = pairs@;
                if !excluded[j] && groups[i] != groups[j] {
                    pairs.push((i, j));
                    assert(pairs@ =~= done + row_pairs(groups@, excluded@, i as int, j + 1));
                } else {
                    assert(pairs@ =~= done + row_pairs(groups@, excluded@, i as int, j + 1));
                }
                j += 1;
            }
        } else {
            proof {
                lemma_excluded_row_empty(groups@, excluded@, i as int, n as int);
            }
            assert(pairs@ =~= done + row_pairs(groups@, excluded@, i as int, n as int));
        }
        i += 1;
    }
    pairs
}

proof fn lemma_excluded_row_empty(groups: Seq<usize>, excluded: Seq<bool>, i: int, end: int)
    requires
        0 <= i < excluded.len(),
        excluded[i],
    ensures
        row_pairs(groups, excluded, i, end) == Seq::<(usize, usize)>::empty(),
    decreases end - i,
{
    if end > i + 1 {
        lemma_excluded_row_empty(groups, excluded, i, end - 1);
        assert(row_pairs(groups, excluded, i, end) =~= Seq::<(usize, usize)>::empty());
    }
}

/// The pairs `(a, b)` and `(c, d)` come in that order: by first particle,
/// then by second.
pub open spec fn pair_before(p: (usize, usize), q: (usize, usize)) -> bool {
    p.0 < q.0 || (p.0 == q.0 && p.1 < q.1)
}

proof fn lemma_row(groups: Seq<usize>, excluded: Seq<bool>, i: int, end: int)
    requires
        0 <= i,
        end <= groups.len() <= usize::MAX,
        groups.len() == excluded.len(),
    ensures
        forall|k: int|
            0 <= k < row_pairs(groups, excluded, i, end).len() ==> {
                let p = #[trigger] row_pairs(groups, excluded, i, end)[k];
                &&& p.0 == i
                &&& i < p.1 < end
                &&& collides_with(groups, excluded, p.0 as int, p.1 as int)
            },
        forall|j: int|
            i < j < end && collides_with(groups, excluded, i, j) ==> #[trigger] row_pairs(
                groups,
                excluded,
                i,
                end,
            ).contains((i as usize, j as usize)),
        forall|a: int, b: int|
            0 <= a < b < row_pairs(groups, excluded, i, end).len() ==> (#[trigger] row_pairs(
                groups,
                excluded,
                i,
                end,
            )[a]).1 < (#[trigger] row_pairs(groups, excluded, i, end)[b]).1,
    decreases end - i,
{
    if end > i + 1 {
        lemma_row(groups, excluded, i, end - 1);
        let prev = row_pairs(groups, excluded, i, end - 1);
        let last: Seq<(usize, usize)> = if collides_with(groups, excluded, i, end - 1) {
            seq![(i as usize, (end - 1) as usize)]
        } else {
            Seq::empty()
        };
        let row = row_pairs(groups, excluded, i, end);
        assert(row == prev + last);
        assert forall|j: int| i < j < end && collides_with(groups, excluded, i, j) implies #[trigger] row.contains(
            (i as usize, j as usize),
        ) by {
            if j < end - 1 {
                assert(prev.contains((i as usize, j as usize)));
                let k = choose|k: int| 0 <= k < prev.len() && prev[k] == (i as usize, j as usize);
                assert(row[k] == prev[k]);
            } else {
                assert(row[prev.len() as int] == (i as usize, j as usize));
            }
        }
        assert forall|a: int, b: int| 0 <= a < b < row.len() implies (#[trigger] row[a]).1 < (
        #[trigger] row[b]).1 by {
            if b < prev.len() {
                assert(row[a] == prev[a] && row[b] == prev[b]);
            } else {
                assert(row[a] == prev[a]);
            }
        }
    }
}

proof fn lemma_all(groups: Seq<usize>, excluded: Seq<bool>, rows: int)
    requires
        0 <= rows <= groups.len() <= usize::MAX,
        groups.len() == excluded.len(),
    ensures
        forall|k: int|
            0 <= k < collision_pairs(groups, excluded, rows).len() ==> {
                let p = #[trigger] collision_pairs(groups, excluded, rows)[k];
                &&& p.0 < rows
                &&& collides_with(groups, excluded, p.0 as int, p.1 as int)
            },
        forall|i: int, j: int|
            0 <= i < rows && collides_with(groups, excluded, i, j) ==> #[trigger] collision_pairs(
                groups,
                excluded,
                rows,
            ).contains((i as usize, j as usize)),
        forall|a: int, b: int|
            0 <= a < b < collision_pairs(groups, excluded, rows).len() ==> pair_before(
                #[trigger] collision_pairs(groups, excluded, rows)[a],
                #[trigger] collision_pairs(groups, excluded, rows)[b],
            ),
    decreases rows,
{
    if rows > 0 {
        lemma_all(groups, excluded, rows - 1);
        lemma_row(groups, excluded, rows - 1, groups.len() as int);
        let prev = collision_pairs(groups, excluded, rows - 1);
        let row = row_pairs(groups, excluded, rows - 1, groups.len() as int);
        let all = collision_pairs(groups, excluded, rows);
        assert(all == prev + row);
        assert forall|k: int| 0 <= k < all.len() implies {
            let p = #[trigger] all[k];
            &&& p.0 < rows
            &&& collides_with(groups, excluded, p.0 as int, p.1 as int)
        } by {
            if k < prev.len() {
                assert(all[k] == prev[k]);
            } else {
                assert(all[k] == row[k - prev.len()]);
            }
        }
        assert forall|i: int, j: int| 0 <= i < rows && collides_with(groups, excluded, i, j) implies #[trigger] all.contains(
            (i as usize, j as usize),
        ) by {
            if i < rows - 1 {
                assert(prev.contains((i as usize, j as usize)));
                let k = choose|k: int| 0 <= k < prev.len() && prev[k] == (i as usize, j as usize);
                assert(all[k] == prev[k]);
            } else {
                assert(row.contains((i as usize, j as usize)));
                let k = choose|k: int| 0 <= k < row.len() && row[k] == (i as usize, j as usize);
                assert(all[prev.len() + k] == row[k]);
            }
        }
        assert forall|a: int, b: int| 0 <= a < b < all.len() implies pair_before(
            #[trigger] all[a],
            #[trigger] all[b],
        ) by {
            if b < prev.len() {
                assert(all[a] == prev[a] && all[b] == prev[b]);
            } else if a < prev.len() {
                assert(all[a] == prev[a]);
                assert(all[b] == row[b - prev.len()]);
            } else {
                assert(all[a] == row[a - prev.len()]);
                assert(all[b] == row[b - prev.len()]);
            }
        }
    }
}

/// Law: the self-collision pass visits a pair of particles exactly when both
/// take part in mesh collision and they belong to different chains, each such
/// pair once, by first particle and then by second.
pub proof fn law_self_collision_pairs(groups: Seq<usize>, excluded: Seq<bool>)
    requires
        groups.len() == excluded.len() <= usize::MAX,
    ensures
        forall|i: usize, j: usize|
            #[trigger] collision_pairs(groups, excluded, groups.len() as int).contains((i, j)) <==> collides_with(
                groups,
                excluded,
                i as int,
                j as int,
            ),
        forall|a: int, b: int|
            0 <= a < b < collision_pairs(groups, excluded, groups.len() as int).len() ==> pair_before(
                #[trigger] collision_pairs(groups, excluded, groups.len() as int)[a],
                #[trigger] collision_pairs(groups, excluded, groups.len() as int)[b],
            ),
{
    let n = groups.len() as int;
    lemma_all(groups, excluded, n);
    let all = collision_pairs(groups, excluded, n);
    assert forall|i: usize, j: usize| #[trigger] all.contains((i, j)) <==> collides_with(
        groups,
        excluded,
        i as int,
        j as int,
    ) by {
        if all.contains((i, j)) {
            let k = choose|k: int| 0 <= k < all.len() && all[k] == (i, j);
            assert(collides_with(groups, excluded, all[k].0 as int, all[k].1 as int));
        }
        if collides_with(groups, excluded, i as int, j as int) {
            assert(all.contains(((i as int) as usize, (j as int) as usize)));
        }
    }
}

} // verus!
