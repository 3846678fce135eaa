//! Splitting a resolution into independent branches.

use vstd::prelude::*;
use uv_pep508::MarkerTree;
use crate::env::ResolverEnvironment;
use crate::marker::marker_set;
use crate::marker::overlaps;

verus! {

/// The per-branch search state. The resolution engine owns everything else
/// about a branch; this core is responsible only for the branch's resolver
/// environment, and only ever creates a new state from an existing one plus
/// a partition seed.
pub struct ForkState {
    pub(crate) env: ResolverEnvironment,
}

/// How a branch produced by a fork relates to the state it was forked from:
/// the environment is the input's, narrowed to the seed. Narrowing is a
/// no-op on a pinned environment.
pub open spec fn narrowed_by(
    out: ResolverEnvironment,
    inp: ResolverEnvironment,
    seed: Set<int>,
) -> bool {
    &&& out.is_specific() == inp.is_specific()
    &&& out.seed_sets() == inp.seed_sets()
    &&& inp.is_specific() ==> out.descriptor() == inp.descriptor() && out.point() == inp.point()
        && out.covered() == inp.covered()
    &&& !inp.is_specific() ==> out.covered() == inp.covered().intersect(seed)
}

impl ForkState {
    /// The branch's resolver environment, as a mathematical value.
    pub closed spec fn env_spec(&self) -> ResolverEnvironment {
        self.env
    }

    /// Create the root search state for the given resolver environment.
    pub fn new(env: ResolverEnvironment) -> (r: ForkState)
        ensures
            r.env_spec() == env,
    {
        ForkState { env }
    }

    /// The branch's resolver environment.
    pub fn env(&self) -> (r: &ResolverEnvironment)
        ensures
            *r == self.env_spec(),
    {
        &self.env
    }

    /// A new search state for the branch responsible for the given partition
    /// seed: this state's environment narrowed to the seed's expression.
    pub fn with_env(&self, marker: &MarkerTree) -> (r: ForkState)
        ensures
            narrowed_by(r.env_spec(), self.env_spec(), marker_set(*marker)),
    {
        ForkState { env: self.env.narrow_markers(marker) }
    }
}

/// Disjointness of forks: when a fork's partition seeds are pairwise
/// disjoint, the produced branches cover pairwise disjoint sets of
/// environment points.
pub proof fn lemma_forked_branches_disjoint(
    parent: ResolverEnvironment,
    init: ForkState,
    branches: Seq<ForkState>,
)
    requires
        !parent.is_specific(),
        !init.env_spec().is_specific(),
        branches.len() == parent.seed_sets().len(),
        forall|i: int|
            0 <= i < branches.len() ==> narrowed_by(
                #[trigger] branches[i].env_spec(),
                init.env_spec(),
                parent.seed_sets()[branches.len() - 1 - i],
            ),
        forall|i: int, j: int|
            0 <= i < j < parent.seed_sets().len() ==> !overlaps(
                #[trigger] parent.seed_sets()[i],
                #[trigger] parent.seed_sets()[j],
            ),
    ensures
        forall|i: int, j: int|
            0 <= i < j < branches.len() ==> !overlaps(
                #[trigger] branches[i].env_spec().covered(),
                #[trigger] branches[j].env_spec().covered(),
            ),
{
    let n = branches.len() as int;
    assert forall|i: int, j: int| 0 <= i < j < n implies !overlaps(
        branches[i].env_spec().covered(),
        branches[j].env_spec().covered(),
    ) by {
        let a = n - 1 - i;
        let b = n - 1 - j;
        assert(0 <= b < a < n);
        assert(!overlaps(parent.seed_sets()[b], parent.seed_sets()[a]));
        if overlaps(branches[i].env_spec().covered(), branches[j].env_spec().covered()) {
            let p = choose|p: int|
                branches[i].env_spec().covered().contains(p)
                    && branches[j].env_spec().covered().contains(p);
            assert(parent.seed_sets()[a].contains(p));
            assert(parent.seed_sets()[b].contains(p));
            assert(overlaps(parent.seed_sets()[b], parent.seed_sets()[a]));
        }
    }
}

/// A partition boundary equal to one of the seeds belongs inside exactly the
/// branch produced for that seed: every other branch's covered set is
/// disjoint from it, and its own branch overlaps it whenever the seed is
/// live in the forked state's environment at all. The overlap forces
/// `in_fork` to answer `true` on the seed's own branch; on the others the
/// covered sets share no point, which is what the engine's disjointness
/// verdict — and with it `in_fork`'s `false` — detects.
pub proof fn lemma_fork_boundary_in_its_branch(
    parent: ResolverEnvironment,
    init: ForkState,
    branches: Seq<ForkState>,
    k: int,
)
    requires
        !parent.is_specific(),
        !init.env_spec().is_specific(),
        branches.len() == parent.seed_sets().len(),
        forall|i: int|
            0 <= i < branches.len() ==> narrowed_by(
                #[trigger] branches[i].env_spec(),
                init.env_spec(),
                parent.seed_sets()[branches.len() - 1 - i],
            ),
        forall|i: int, j: int|
            0 <= i < j < parent.seed_sets().len() ==> !overlaps(
                #[trigger] parent.seed_sets()[i],
                #[trigger] parent.seed_sets()[j],
            ),
        0 <= k < parent.seed_sets().len(),
    ensures
        forall|i: int|
            0 <= i < branches.len() && i != branches.len() - 1 - k ==> !overlaps(
                (#[trigger] branches[i].env_spec()).covered(),
                parent.seed_sets()[k],
            ),
        overlaps(init.env_spec().covered(), parent.seed_sets()[k]) ==> overlaps(
            branches[branches.len() - 1 - k].env_spec().covered(),
            parent.seed_sets()[k],
        ),
{
    let n = branches.len() as int;
    assert forall|i: int| 0 <= i < n && i != n - 1 - k implies !overlaps(
        (branches[i].env_spec()).covered(),
        parent.seed_sets()[k],
    ) by {
        let a = n - 1 - i;
        assert(a != k);
        if overlaps(branches[i].env_spec().covered(), parent.seed_sets()[k]) {
            let p = choose|p: int|
                branches[i].env_spec().covered().contains(p) && parent.seed_sets()[k].contains(p);
            assert(parent.seed_sets()[a].contains(p));
            if a < k {
                assert(overlaps(parent.seed_sets()[a], parent.seed_sets()[k]));
            } else {
                assert(overlaps(parent.seed_sets()[k], parent.seed_sets()[a]));
            }
        }
    }
    if overlaps(init.env_spec().covered(), parent.seed_sets()[k]) {
        let p = choose|p: int|
            init.env_spec().covered().contains(p) && parent.seed_sets()[k].contains(p);
        assert(branches[n - 1 - k].env_spec().covered().contains(p));
    }
}

/// Coverage: when the partition seeds jointly cover every point the forked
/// state's environment covers, the branches' covered sets union to exactly
/// that environment's covered set — no environment is lost or duplicated
/// outside the seeds' own overlaps.
pub proof fn lemma_forked_branches_cover(
    parent: ResolverEnvironment,
    init: ForkState,
    branches: Seq<ForkState>,
)
    requires
        !parent.is_specific(),
        !init.env_spec().is_specific(),
        branches.len() == parent.seed_sets().len(),
        forall|i: int|
            0 <= i < branches.len() ==> narrowed_by(
                #[trigger] branches[i].env_spec(),
                init.env_spec(),
                parent.seed_sets()[branches.len() - 1 - i],
            ),
        forall|p: int|
            init.env_spec().covered().contains(p) ==> exists|i: int|
                0 <= i < parent.seed_sets().len() && (#[trigger] parent.seed_sets()[i]).contains(p),
    ensures
        forall|p: int|
            init.env_spec().covered().contains(p) <==> exists|i: int|
                0 <= i < branches.len() && (#[trigger] branches[i].env_spec().covered()).contains(
                    p,
                ),
{
    let n = branches.len() as int;
    assert forall|p: int| init.env_spec().covered().contains(p) implies exists|i: int|
        0 <= i < n && (#[trigger] branches[i].env_spec().covered()).contains(p) by {
        let s = choose|s: int| 0 <= s < n && (#[trigger] parent.seed_sets()[s]).contains(p);
        let i = n - 1 - s;
        assert(branches[i].env_spec().covered().contains(p));
    }
    assert forall|p: int|
        exists|i: int| 0 <= i < n && (#[trigger] branches[i].env_spec().covered()).contains(
            p,
        ) implies init.env_spec().covered().contains(p) by {
        let i = choose|i: int|
            0 <= i < n && (#[trigger] branches[i].env_spec().covered()).contains(p);
        assert(branches[i].env_spec().covered() == init.env_spec().covered().intersect(
            parent.seed_sets()[n - 1 - i],
        ));
    }
}

} // verus!
