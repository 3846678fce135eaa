//! Trusted interface to the marker-expression engine.
//!
//! The marker engine (crate `uv_pep508`, plus the `ResolverMarkerEnvironment`
//! wrapper of `uv_pypi_types`) represents a boolean predicate over runtime
//! environments as an algebraic decision diagram. This module gives those
//! opaque values a mathematical meaning in three deliberately separate parts:
//!
//! * A marker expression denotes a set of *points* (`marker_set`, modelled as
//!   `Set<int>`): the environments the engine's algebra treats as possible,
//!   which excludes the platform combinations it encodes as incompatible (a
//!   Windows `os_name` joined with a Linux `sys_platform`, say). Conjunction
//!   is exact intersection over this space, and the always-true expression
//!   denotes all of it.
//! * The engine's own *verdicts* — its truth test and its disjointness test —
//!   get names of their own (`tree_is_true`, `trees_disjoint`), deterministic
//!   functions of the trees. The engine documents that both tests may return
//!   false negatives, and its incompatible-platform collapse fires only at
//!   conjunctions of two platform markers, so a diagram can denote the empty
//!   set without the engine noticing. The contracts below therefore tie each
//!   verdict to the set model in one direction only: a positive verdict is
//!   definitive, a negative one is not.
//! * Evaluation of an expression at a concrete descriptor is a plain
//!   traversal over the descriptor's literal field values and is **not**
//!   stated in terms of that set: a descriptor built from arbitrary strings
//!   may combine fields the algebra excludes, and would then satisfy two
//!   expressions the algebra rightly calls disjoint. Evaluation gets its own
//!   name (`marker_eval`), a boolean function of the expression and the
//!   descriptor alone.

use vstd::prelude::*;
use uv_pep508::MarkerEnvironment;
use uv_pep508::MarkerTree;
use uv_pypi_types::ResolverMarkerEnvironment;

verus! {

#[verifier::external_type_specification]
#[verifier::external_body]
pub struct ExMarkerTree(MarkerTree);

#[verifier::external_type_specification]
#[verifier::external_body]
pub struct ExMarkerEnvironment(MarkerEnvironment);

#[verifier::external_type_specification]
#[verifier::external_body]
pub struct ExResolverMarkerEnvironment(ResolverMarkerEnvironment);

/// The set of environment points at which a marker expression holds.
pub uninterp spec fn marker_set(m: MarkerTree) -> Set<int>;

/// The engine's verdict on whether a marker expression is the always-true
/// diagram: a function of the tree alone.
pub uninterp spec fn tree_is_true(m: MarkerTree) -> bool;

/// The engine's verdict on whether two marker expressions are disjoint: a
/// function of the two trees alone.
pub uninterp spec fn trees_disjoint(a: MarkerTree, b: MarkerTree) -> bool;

/// Whether a marker expression evaluates to true at a concrete descriptor
/// (with no package extras enabled): a function of the expression and the
/// descriptor alone.
pub uninterp spec fn marker_eval(m: MarkerTree, e: ResolverMarkerEnvironment) -> bool;

/// An identity tag for a resolver environment descriptor, used only to state
/// that one descriptor value is carried through unchanged.
pub uninterp spec fn env_point(e: ResolverMarkerEnvironment) -> int;

/// An identity tag for a bare environment descriptor, used only to state
/// that one descriptor value is handed out unchanged.
pub uninterp spec fn raw_env_point(e: MarkerEnvironment) -> int;

/// The textual rendering of a marker expression, a function of the
/// expression alone.
pub uninterp spec fn marker_display(m: MarkerTree) -> Seq<char>;

/// Two sets of environment points overlap when some point lies in both.
pub open spec fn overlaps(a: Set<int>, b: Set<int>) -> bool {
    exists|p: int| a.contains(p) && b.contains(p)
}

/// Relies on `MarkerTree::TRUE`: "an empty marker that always evaluates to
/// `true`", so it holds at every point, and the engine's truth test
/// recognizes the constant.
#[verifier::external_body]
pub(crate) fn marker_true() -> (r: MarkerTree)
    ensures
        marker_set(r) == Set::<int>::full(),
        tree_is_true(r),
{
    MarkerTree::TRUE
}

/// Relies on `MarkerTree::and`: "combine this marker tree with the one given
/// via a conjunction", which holds exactly where both conjuncts hold.
/// Conjunction with an operand the engine's truth test recognizes as
/// always-true returns the other operand unchanged (the conjunction
/// short-circuits on the true node).
#[verifier::external_body]
pub(crate) fn marker_and(lhs: MarkerTree, rhs: MarkerTree) -> (r: MarkerTree)
    ensures
        marker_set(r) == marker_set(lhs).intersect(marker_set(rhs)),
        tree_is_true(rhs) ==> r == lhs,
        tree_is_true(lhs) ==> r == rhs,
{
    let mut tree = lhs;
    tree.and(rhs);
    tree
}

/// Relies on `MarkerTree::is_true`: whether the marker always evaluates to
/// `true`. A positive verdict is definitive ("it is definitively known that
/// the marker will evaluate to `true` in any environment"); a negative one
/// is not ("this method may return false negatives"), so only the positive
/// direction is tied to the set model.
#[verifier::external_body]
pub(crate) fn marker_is_true(m: MarkerTree) -> (r: bool)
    ensures
        r == tree_is_true(m),
        r ==> marker_set(m) == Set::<int>::full(),
{
    m.is_true()
}

/// Relies on `MarkerTree::is_disjoint`: "returns `true` if there is no
/// environment in which both marker trees can apply". A positive verdict is
/// definitive ("it is definitively known that the two markers can never both
/// evaluate to `true`"); a negative one is not ("this method may return
/// false negatives"), so only the positive direction is tied to the set
/// model.
#[verifier::external_body]
pub(crate) fn marker_is_disjoint(lhs: MarkerTree, rhs: MarkerTree) -> (r: bool)
    ensures
        r == trees_disjoint(lhs, rhs),
        r ==> !overlaps(marker_set(lhs), marker_set(rhs)),
{
    lhs.is_disjoint(rhs)
}

/// Relies on `MarkerTree::evaluate`: "does this marker apply in the given
/// environment?", with no extras enabled. The result is a deterministic
/// traversal of the diagram over the descriptor's field values, named by
/// `marker_eval`; nothing ties it to the set model, since a descriptor may
/// combine fields the algebra excludes.
#[verifier::external_body]
pub(crate) fn marker_evaluate(m: MarkerTree, env: &ResolverMarkerEnvironment) -> (r: bool)
    ensures
        r == marker_eval(m, *env),
{
    m.evaluate(env.markers(), &[])
}

/// Relies on `ResolverMarkerEnvironment::markers`: "returns the underlying
/// `MarkerEnvironment`" — the same descriptor the wrapper holds, which the
/// identity tags on either side of the contract record.
#[verifier::external_body]
pub(crate) fn resolver_env_markers(env: &ResolverMarkerEnvironment) -> (r: &MarkerEnvironment)
    ensures
        raw_env_point(*r) == env_point(*env),
{
    env.markers()
}

/// Relies on the derived `Clone` of `ResolverMarkerEnvironment`: the type is
/// an immutable wrapper around a shared, reference-counted descriptor, and
/// the clone shares the same descriptor data, so no operation can tell the
/// clone from the original; it is modelled as the same value.
#[verifier::external_body]
pub(crate) fn clone_resolver_env(env: &ResolverMarkerEnvironment) -> (r: ResolverMarkerEnvironment)
    ensures
        r == *env,
{
    env.clone()
}

/// Relies on the `Debug` rendering of `MarkerTree`, a function of the
/// expression alone.
#[verifier::external_body]
pub(crate) fn marker_debug(m: MarkerTree) -> (r: String)
    ensures
        r@ == marker_display(m),
{
    format!("{m:?}")
}

} // verus!
