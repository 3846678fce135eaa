//! The set of environments that one resolution branch must satisfy.

use vstd::prelude::*;
use vstd::string::StringExecFns;
use uv_pep508::MarkerEnvironment;
use uv_pep508::MarkerTree;
use uv_pypi_types::ResolverMarkerEnvironment;
use crate::marker::clone_resolver_env;
use crate::marker::env_point;
use crate::marker::marker_and;
use crate::marker::marker_debug;
use crate::marker::marker_display;
use crate::marker::marker_eval;
use crate::marker::marker_evaluate;
use crate::marker::marker_is_disjoint;
use crate::marker::marker_is_true;
use crate::marker::marker_set;
use crate::marker::marker_true;
use crate::marker::overlaps;
use crate::marker::raw_env_point;
use crate::marker::resolver_env_markers;
use crate::marker::tree_is_true;
use crate::marker::trees_disjoint;
use crate::fork::narrowed_by;
use crate::fork::ForkState;

verus! {

/// The specific kind of resolver environment. Kept private: callers interact
/// only through the behavioral operations on [`ResolverEnvironment`], never
/// by case analysis of their own.
enum Kind {
    /// Resolving for one concrete environment only.
    Specific {
        /// The environment descriptor being resolved for.
        marker_env: ResolverMarkerEnvironment,
    },
    /// Resolving for all possible environments.
    Universal {
        /// The initial partition seeds: marker expressions describing a
        /// pre-determined split of the environment space. May be empty, in
        /// which case resolution begins with a single unsplit branch.
        initial_forks: Vec<MarkerTree>,
        /// The marker expression of this particular branch, initially
        /// "always true" and narrowed over time by conjunction.
        markers: MarkerTree,
    },
}

/// The environment a resolution branch must satisfy: either exactly one
/// concrete environment descriptor, or an open set of environments described
/// by a marker expression together with an ordered list of partition seeds.
pub struct ResolverEnvironment {
    kind: Kind,
}

impl ResolverEnvironment {
    /// Whether this environment is pinned to one concrete descriptor.
    pub closed spec fn is_specific(&self) -> bool {
        self.kind is Specific
    }

    /// The identity tag of the pinned descriptor (meaningful only when
    /// `is_specific()`).
    pub closed spec fn point(&self) -> int {
        match self.kind {
            Kind::Specific { marker_env } => env_point(marker_env),
            Kind::Universal { .. } => 0,
        }
    }

    /// The pinned descriptor itself (meaningful only when `is_specific()`).
    pub closed spec fn descriptor(&self) -> ResolverMarkerEnvironment {
        match self.kind {
            Kind::Specific { marker_env } => marker_env,
            Kind::Universal { .. } => arbitrary(),
        }
    }

    /// The denotations of the initial partition seeds, in their given order
    /// (empty for a specific environment).
    pub closed spec fn seed_sets(&self) -> Seq<Set<int>> {
        match self.kind {
            Kind::Specific { .. } => Seq::empty(),
            Kind::Universal { initial_forks, .. } => initial_forks@.map_values(
                |m: MarkerTree| marker_set(m),
            ),
        }
    }

    /// The set of environment points this branch is responsible for: all
    /// points where the branch's current marker expression holds, or, for a
    /// pinned environment, the singleton of the descriptor's identity tag
    /// (used only to state that narrowing and forking leave it unchanged).
    pub closed spec fn covered(&self) -> Set<int> {
        match self.kind {
            Kind::Specific { marker_env } => Set::empty().insert(env_point(marker_env)),
            Kind::Universal { markers, .. } => marker_set(markers),
        }
    }

    /// The branch's current marker expression (meaningful only when not
    /// `is_specific()`).
    pub closed spec fn current_tree(&self) -> MarkerTree {
        match self.kind {
            Kind::Specific { .. } => arbitrary(),
            Kind::Universal { markers, .. } => markers,
        }
    }

    /// Create a resolver environment fixed to one and only one concrete
    /// environment descriptor.
    pub fn specific(marker_env: ResolverMarkerEnvironment) -> (r: ResolverEnvironment)
        ensures
            r.is_specific(),
            r.descriptor() == marker_env,
            r.point() == env_point(marker_env),
            r.covered() == Set::empty().insert(env_point(marker_env)),
            r.seed_sets() == Seq::<Set<int>>::empty(),
    {
        ResolverEnvironment { kind: Kind::Specific { marker_env } }
    }

    /// Create a resolver environment for a multi-platform resolution. The
    /// given marker expressions seed the initial set of resolver branches;
    /// the branch's own expression starts as "always true", so every
    /// environment point is covered.
    pub fn universal(initial_forks: Vec<MarkerTree>) -> (r: ResolverEnvironment)
        ensures
            !r.is_specific(),
            r.seed_sets() == initial_forks@.map_values(|m: MarkerTree| marker_set(m)),
            r.covered() == Set::<int>::full(),
            tree_is_true(r.current_tree()),
    {
        let tree = marker_true();
        ResolverEnvironment { kind: Kind::Universal { initial_forks, markers: tree } }
    }

    /// Whether a dependency specification with the given applicability marker
    /// is relevant to this branch. For a pinned environment that is exactly
    /// evaluation of the marker at its descriptor. For an open one it is the
    /// engine's non-disjointness verdict on the branch's expression; a real
    /// overlap of the two denotations always makes it `true`, while a `false`
    /// answer is the engine's verdict alone (its disjointness test may miss
    /// an empty intersection).
    pub fn included(&self, marker: &MarkerTree) -> (r: bool)
        ensures
            self.is_specific() ==> r == marker_eval(*marker, self.descriptor()),
            !self.is_specific() ==> r == !trees_disjoint(self.current_tree(), *marker),
            !self.is_specific() && overlaps(self.covered(), marker_set(*marker)) ==> r,
    {
        match &self.kind {
            Kind::Specific { marker_env } => marker_evaluate(*marker, marker_env),
            Kind::Universal { markers, .. } => {
                let disjoint = marker_is_disjoint(*markers, *marker);
                !disjoint
            },
        }
    }

    /// Whether a candidate partition boundary belongs inside this branch. A
    /// pinned environment is never split further, so the answer there is
    /// always `true`; an open branch answers exactly as [`Self::included`]
    /// does for open branches.
    pub fn in_fork(&self, marker: &MarkerTree) -> (r: bool)
        ensures
            self.is_specific() ==> r,
            !self.is_specific() ==> r == !trees_disjoint(self.current_tree(), *marker),
            !self.is_specific() && overlaps(self.covered(), marker_set(*marker)) ==> r,
    {
        match &self.kind {
            Kind::Specific { .. } => true,
            Kind::Universal { markers, .. } => {
                let disjoint = marker_is_disjoint(*markers, *marker);
                !disjoint
            },
        }
    }

    /// The concrete descriptor being resolved for, if this environment is
    /// pinned to one; absent for an open environment.
    pub fn marker_environment(&self) -> (r: Option<&MarkerEnvironment>)
        ensures
            r is Some <==> self.is_specific(),
            r matches Some(e) ==> raw_env_point(*e) == self.point(),
    {
        match &self.kind {
            Kind::Specific { marker_env } => Some(resolver_env_markers(marker_env)),
            Kind::Universal { .. } => None,
        }
    }

    /// Return a new environment narrowed by the given marker expression.
    ///
    /// Narrowing is a no-op on a pinned environment: the result carries the
    /// same descriptor, so it is observably equivalent to the receiver for
    /// every query operation. On an open branch the covered set becomes the
    /// intersection with the expression's denotation, the seeds unchanged;
    /// narrowing by an expression the engine recognizes as always-true keeps
    /// the branch's expression value itself. In either case the result never
    /// covers a point the receiver did not (narrowing never widens).
    pub fn narrow_markers(&self, rhs: &MarkerTree) -> (r: ResolverEnvironment)
        ensures
            r.is_specific() == self.is_specific(),
            r.seed_sets() == self.seed_sets(),
            self.is_specific() ==> r.descriptor() == self.descriptor() && r.point() == self.point()
                && r.covered() == self.covered(),
            !self.is_specific() ==> r.covered() == self.covered().intersect(marker_set(*rhs)),
            !self.is_specific() && tree_is_true(*rhs) ==> r.current_tree() == self.current_tree(),
            r.covered().subset_of(self.covered()),
    {
        match &self.kind {
            Kind::Specific { marker_env } => {
                let env2 = clone_resolver_env(marker_env);
                ResolverEnvironment { kind: Kind::Specific { marker_env: env2 } }
            },
            Kind::Universal { initial_forks, markers } => {
                let seeds = copy_trees(initial_forks);
                let tree = marker_and(*markers, *rhs);
                let out = ResolverEnvironment {
                    kind: Kind::Universal { initial_forks: seeds, markers: tree },
                };
                proof {
                    assert forall|p: int| out.covered().contains(p) implies self.covered().contains(
                        p,
                    ) by {}
                    assert(out.seed_sets() =~= self.seed_sets());
                }
                out
            },
        }
    }

    /// A copy of this environment, observably equivalent to it for every
    /// query operation: same kind, same descriptor when pinned, same
    /// expression and seeds when open. Environments are cheap to copy (a
    /// descriptor is shared, reference-counted data and marker trees are
    /// plain handles), so each resolution branch takes its own.
    pub fn clone_env(&self) -> (r: ResolverEnvironment)
        ensures
            r.is_specific() == self.is_specific(),
            r.seed_sets() == self.seed_sets(),
            self.is_specific() ==> r.descriptor() == self.descriptor() && r.point() == self.point(),
            !self.is_specific() ==> r.current_tree() == self.current_tree(),
            r.covered() == self.covered(),
    {
        match &self.kind {
            Kind::Specific { marker_env } => {
                let env2 = clone_resolver_env(marker_env);
                ResolverEnvironment { kind: Kind::Specific { marker_env: env2 } }
            },
            Kind::Universal { initial_forks, markers } => {
                let seeds = copy_trees(initial_forks);
                let out = ResolverEnvironment {
                    kind: Kind::Universal { initial_forks: seeds, markers: *markers },
                };
                proof {
                    assert(out.seed_sets() =~= self.seed_sets());
                }
                out
            },
        }
    }

    /// The branch's current marker expression; for a pinned environment the
    /// constant "always true" (markers are not meaningful once pinned).
    pub fn markers(&self) -> (r: MarkerTree)
        ensures
            self.is_specific() ==> marker_set(r) == Set::<int>::full() && tree_is_true(r),
            !self.is_specific() ==> marker_set(r) == self.covered() && r == self.current_tree(),
    {
        match &self.kind {
            Kind::Specific { .. } => marker_true(),
            Kind::Universal { markers, .. } => *markers,
        }
    }

    /// The branch's current marker expression, but only when it records a
    /// real narrowing: absent for a pinned environment, and absent for an
    /// open branch whose expression the engine recognizes as still
    /// "always true".
    pub fn try_markers(&self) -> (r: Option<MarkerTree>)
        ensures
            r is Some <==> !self.is_specific() && !tree_is_true(self.current_tree()),
            r matches Some(m) ==> m == self.current_tree() && marker_set(m) == self.covered(),
    {
        match &self.kind {
            Kind::Specific { .. } => None,
            Kind::Universal { markers, .. } => {
                if marker_is_true(*markers) {
                    None
                } else {
                    Some(*markers)
                }
            },
        }
    }

    /// A human-readable label for this branch, warranted only when a real
    /// narrowing has occurred; purely diagnostic.
    pub fn end_user_fork_display(&self) -> (r: Option<String>)
        ensures
            r is Some <==> !self.is_specific() && !tree_is_true(self.current_tree()),
            r matches Some(s) ==> s@ == "split ("@ + marker_display(self.current_tree()) + ")"@,
    {
        match &self.kind {
            Kind::Specific { .. } => None,
            Kind::Universal { markers, .. } => {
                if marker_is_true(*markers) {
                    None
                } else {
                    let rendered = marker_debug(*markers);
                    let mut label = "split (".to_owned();
                    label.append(rendered.as_str());
                    label.append(")");
                    Some(label)
                }
            },
        }
    }

    /// A human-readable rendering of the whole environment; purely
    /// diagnostic.
    pub fn display(&self) -> (r: String)
        ensures
            self.is_specific() ==> r@ == "Marker Environment"@,
            !self.is_specific() && tree_is_true(self.current_tree()) ==> r@
                == "All Marker Environments"@,
            !self.is_specific() && !tree_is_true(self.current_tree()) ==> r@ == "Split `"@
                + marker_display(self.current_tree()) + "`"@,
    {
        match &self.kind {
            Kind::Specific { .. } => "Marker Environment".to_owned(),
            Kind::Universal { markers, .. } => {
                if marker_is_true(*markers) {
                    "All Marker Environments".to_owned()
                } else {
                    let rendered = marker_debug(*markers);
                    let mut label = "Split `".to_owned();
                    label.append(rendered.as_str());
                    label.append("`");
                    label
                }
            },
        }
    }

    /// Split a branch's search state into one state per partition seed.
    ///
    /// A pinned environment, or an open one with no seeds, is not split: the
    /// input state comes back alone, unchanged. Otherwise one state is
    /// produced per seed, in **reverse** of the seeds' order (the last-listed
    /// seed becomes the first produced state), each holding the input
    /// state's environment narrowed to its seed. Whether the seeds are
    /// pairwise disjoint is the caller's responsibility; when they are, the
    /// produced branches are too (see
    /// [`crate::fork::lemma_forked_branches_disjoint`]).
    pub fn forked_states(&self, init: ForkState) -> (r: Vec<ForkState>)
        ensures
            self.is_specific() || self.seed_sets().len() == 0 ==> r@ =~= seq![init],
            !self.is_specific() && self.seed_sets().len() > 0 ==> {
                &&& r@.len() == self.seed_sets().len()
                &&& forall|i: int|
                    0 <= i < r@.len() ==> narrowed_by(
                        (#[trigger] r@[i]).env_spec(),
                        init.env_spec(),
                        self.seed_sets()[r@.len() - 1 - i],
                    )
            },
    {
        match &self.kind {
            Kind::Specific { .. } => vec![init],
            Kind::Universal { initial_forks, .. } => {
                let n = initial_forks.len();
                if n == 0 {
                    vec![init]
                } else {
                    let mut out: Vec<ForkState> = Vec::new();
                    let mut i: usize = n;
                    while i > 0
                        invariant
                            i <= n,
                            n == initial_forks@.len(),
                            self.kind matches Kind::Universal { initial_forks: f, .. } && f@
                                == initial_forks@,
                            out@.len() == n - i,
                            forall|j: int|
                                0 <= j < out@.len() ==> narrowed_by(
                                    (#[trigger] out@[j]).env_spec(),
                                    init.env_spec(),
                                    marker_set(initial_forks@[n - 1 - j]),
                                ),
                        decreases i,
                    {
                        i = i - 1;
                        let seed = initial_forks[i];
                        let state = init.with_env(&seed);
                        out.push(state);
                    }
                    proof {
                        assert(forall|j: int|
                            0 <= j < n ==> self.seed_sets()[j] == marker_set(initial_forks@[j]));
                    }
                    out
                }
            },
        }
    }

    /// Whether this environment is pinned, as an executable test.
    pub(crate) fn kind_is_specific(&self) -> (r: bool)
        ensures
            r == self.is_specific(),
    {
        match &self.kind {
            Kind::Specific { .. } => true,
            Kind::Universal { .. } => false,
        }
    }
}

/// An element-wise copy of a list of marker expressions (marker trees are
/// plain copyable handles).
fn copy_trees(trees: &Vec<MarkerTree>) -> (r: Vec<MarkerTree>)
    ensures
        r@ == trees@,
{
    let mut out: Vec<MarkerTree> = Vec::new();
    let mut i: usize = 0;
    while i < trees.len()
        invariant
            i <= trees@.len(),
            out@ == trees@.subrange(0, i as int),
        decreases trees@.len() - i,
    {
        out.push(trees[i]);
        proof {
            assert(out@ =~= trees@.subrange(0, i as int + 1));
        }
        i = i + 1;
    }
    proof {
        assert(out@ =~= trees@);
    }
    out
}

} // verus!
