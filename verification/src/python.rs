//! Narrowing a language-version requirement to a branch's version window.

use vstd::prelude::*;
use crate::env::ResolverEnvironment;

verus! {

/// A release-only language version: major, minor and micro components.
#[derive(Clone, Copy, PartialEq, Eq, Structural, Debug)]
pub struct Version {
    pub major: u64,
    pub minor: u64,
    pub micro: u64,
}

/// One end of a version range.
#[derive(Clone, Copy, PartialEq, Eq, Structural, Debug)]
pub enum VersionBound {
    Unbounded,
    Included(Version),
    Excluded(Version),
}

/// A contiguous range of language versions: the tightest known constraint on
/// the language-version attribute.
#[derive(Clone, Copy, PartialEq, Eq, Structural, Debug)]
pub struct RequiresPythonRange {
    pub lower: VersionBound,
    pub upper: VersionBound,
}

/// A language-version requirement: the range of versions a resolution's
/// artifacts must support.
#[derive(Clone, Copy, PartialEq, Eq, Structural, Debug)]
pub struct PythonRequirement {
    pub target: RequiresPythonRange,
}

/// Lexicographic order on versions: `a` at most `b`.
pub open spec fn version_le(a: Version, b: Version) -> bool {
    ||| a.major < b.major
    ||| (a.major == b.major && a.minor < b.minor)
    ||| (a.major == b.major && a.minor == b.minor && a.micro <= b.micro)
}

/// Strict lexicographic order on versions.
pub open spec fn version_lt(a: Version, b: Version) -> bool {
    version_le(a, b) && a != b
}

/// Whether a version lies above a range's lower end.
pub open spec fn above_lower(b: VersionBound, v: Version) -> bool {
    match b {
        VersionBound::Unbounded => true,
        VersionBound::Included(l) => version_le(l, v),
        VersionBound::Excluded(l) => version_lt(l, v),
    }
}

/// Whether a version lies below a range's upper end.
pub open spec fn below_upper(b: VersionBound, v: Version) -> bool {
    match b {
        VersionBound::Unbounded => true,
        VersionBound::Included(u) => version_le(v, u),
        VersionBound::Excluded(u) => version_lt(v, u),
    }
}

/// Whether a version lies in a range.
pub open spec fn in_range(r: RequiresPythonRange, v: Version) -> bool {
    above_lower(r.lower, v) && below_upper(r.upper, v)
}

impl Version {
    /// Whether this version is at most the other.
    pub fn le(&self, other: &Version) -> (r: bool)
        ensures
            r == version_le(*self, *other),
    {
        if self.major != other.major {
            self.major < other.major
        } else if self.minor != other.minor {
            self.minor < other.minor
        } else {
            self.micro <= other.micro
        }
    }

    /// Whether this version is strictly below the other.
    pub fn lt(&self, other: &Version) -> (r: bool)
        ensures
            r == version_lt(*self, *other),
    {
        if self.major != other.major {
            self.major < other.major
        } else if self.minor != other.minor {
            self.minor < other.minor
        } else {
            self.micro < other.micro
        }
    }
}

/// The greatest representable version: the successor of no version.
pub open spec fn is_max_version(v: Version) -> bool {
    v.major == u64::MAX && v.minor == u64::MAX && v.micro == u64::MAX
}

/// The least version strictly above `v` (meaningful when `v` is not the
/// greatest representable version).
pub open spec fn succ_of(v: Version) -> Version {
    if v.micro < u64::MAX {
        Version { major: v.major, minor: v.minor, micro: (v.micro + 1) as u64 }
    } else if v.minor < u64::MAX {
        Version { major: v.major, minor: (v.minor + 1) as u64, micro: 0 }
    } else {
        Version { major: (v.major + 1) as u64, minor: 0, micro: 0 }
    }
}

/// `succ_of(v)` is the least version strictly above `v`.
proof fn lemma_succ(v: Version)
    requires
        !is_max_version(v),
    ensures
        version_lt(v, succ_of(v)),
        forall|w: Version| version_lt(v, w) ==> version_le(succ_of(v), w),
{
}

/// The greatest representable version has no strict successor.
proof fn lemma_max_version(v: Version)
    requires
        is_max_version(v),
    ensures
        forall|w: Version| !version_lt(v, w),
{
}

impl Version {
    /// Whether this version is the greatest representable one.
    fn is_max(&self) -> (r: bool)
        ensures
            r == is_max_version(*self),
    {
        self.major == u64::MAX && self.minor == u64::MAX && self.micro == u64::MAX
    }

    /// The least version strictly above this one.
    fn succ(&self) -> (r: Version)
        requires
            !is_max_version(*self),
        ensures
            r == succ_of(*self),
    {
        if self.micro < u64::MAX {
            Version { major: self.major, minor: self.minor, micro: self.micro + 1 }
        } else if self.minor < u64::MAX {
            Version { major: self.major, minor: self.minor + 1, micro: 0 }
        } else {
            Version { major: self.major + 1, minor: 0, micro: 0 }
        }
    }
}

/// The lower end that admits exactly the versions both ends admit.
fn max_lower(a: VersionBound, b: VersionBound) -> (r: VersionBound)
    ensures
        forall|v: Version| above_lower(r, v) <==> above_lower(a, v) && above_lower(b, v),
{
    match (a, b) {
        (VersionBound::Unbounded, other) => other,
        (other, VersionBound::Unbounded) => other,
        (VersionBound::Included(x), VersionBound::Included(y)) => {
            if x.le(&y) {
                VersionBound::Included(y)
            } else {
                VersionBound::Included(x)
            }
        },
        (VersionBound::Included(x), VersionBound::Excluded(y)) => {
            if x.le(&y) {
                VersionBound::Excluded(y)
            } else {
                VersionBound::Included(x)
            }
        },
        (VersionBound::Excluded(x), VersionBound::Included(y)) => {
            if y.le(&x) {
                VersionBound::Excluded(x)
            } else {
                VersionBound::Included(y)
            }
        },
        (VersionBound::Excluded(x), VersionBound::Excluded(y)) => {
            if x.le(&y) {
                VersionBound::Excluded(y)
            } else {
                VersionBound::Excluded(x)
            }
        },
    }
}

/// The upper end that admits exactly the versions both ends admit.
fn min_upper(a: VersionBound, b: VersionBound) -> (r: VersionBound)
    ensures
        forall|v: Version| below_upper(r, v) <==> below_upper(a, v) && below_upper(b, v),
{
    match (a, b) {
        (VersionBound::Unbounded, other) => other,
        (other, VersionBound::Unbounded) => other,
        (VersionBound::Included(x), VersionBound::Included(y)) => {
            if x.le(&y) {
                VersionBound::Included(x)
            } else {
                VersionBound::Included(y)
            }
        },
        (VersionBound::Included(x), VersionBound::Excluded(y)) => {
            if x.lt(&y) {
                VersionBound::Included(x)
            } else {
                VersionBound::Excluded(y)
            }
        },
        (VersionBound::Excluded(x), VersionBound::Included(y)) => {
            if y.lt(&x) {
                VersionBound::Included(y)
            } else {
                VersionBound::Excluded(x)
            }
        },
        (VersionBound::Excluded(x), VersionBound::Excluded(y)) => {
            if x.le(&y) {
                VersionBound::Excluded(x)
            } else {
                VersionBound::Excluded(y)
            }
        },
    }
}

impl RequiresPythonRange {
    /// The range of versions lying in both this range and the other.
    pub fn intersect(&self, other: &RequiresPythonRange) -> (r: RequiresPythonRange)
        ensures
            forall|v: Version| in_range(r, v) <==> in_range(*self, v) && in_range(*other, v),
    {
        RequiresPythonRange {
            lower: max_lower(self.lower, other.lower),
            upper: min_upper(self.upper, other.upper),
        }
    }

    /// Whether no version at all lies in this range.
    pub fn is_empty(&self) -> (r: bool)
        ensures
            r <==> forall|v: Version| !in_range(*self, v),
    {
        let zero = Version { major: 0, minor: 0, micro: 0 };
        match (self.lower, self.upper) {
            (VersionBound::Unbounded, VersionBound::Unbounded) => {
                proof {
                    assert(in_range(*self, zero));
                }
                false
            },
            (VersionBound::Unbounded, VersionBound::Included(u)) => {
                proof {
                    assert(in_range(*self, zero));
                }
                false
            },
            (VersionBound::Unbounded, VersionBound::Excluded(u)) => {
                let empty = u.major == 0 && u.minor == 0 && u.micro == 0;
                proof {
                    if !empty {
                        assert(version_lt(zero, u));
                        assert(in_range(*self, zero));
                    }
                }
                empty
            },
            (VersionBound::Included(l), VersionBound::Unbounded) => {
                proof {
                    assert(in_range(*self, l));
                }
                false
            },
            (VersionBound::Included(l), VersionBound::Included(u)) => {
                let empty = !l.le(&u);
                proof {
                    if !empty {
                        assert(in_range(*self, l));
                    }
                }
                empty
            },
            (VersionBound::Included(l), VersionBound::Excluded(u)) => {
                let empty = !l.lt(&u);
                proof {
                    if !empty {
                        assert(in_range(*self, l));
                    }
                }
                empty
            },
            (VersionBound::Excluded(l), VersionBound::Unbounded) => {
                let empty = l.is_max();
                proof {
                    if empty {
                        lemma_max_version(l);
                    } else {
                        lemma_succ(l);
                        assert(in_range(*self, succ_of(l)));
                    }
                }
                empty
            },
            (VersionBound::Excluded(l), VersionBound::Included(u)) => {
                let empty = !l.lt(&u);
                proof {
                    if empty {
                        assert forall|v: Version| !in_range(*self, v) by {
                            if version_lt(l, v) && version_le(v, u) {
                                assert(version_lt(l, u));
                            }
                        }
                    } else {
                        lemma_succ(l);
                        assert(in_range(*self, succ_of(l)));
                    }
                }
                empty
            },
            (VersionBound::Excluded(l), VersionBound::Excluded(u)) => {
                if !l.lt(&u) {
                    proof {
                        assert forall|v: Version| !in_range(*self, v) by {
                            if version_lt(l, v) && version_lt(v, u) {
                                assert(version_lt(l, u));
                            }
                        }
                    }
                    true
                } else {
                    proof {
                        lemma_succ(l);
                    }
                    let s = l.succ();
                    let empty = !s.lt(&u);
                    proof {
                        if empty {
                            assert forall|v: Version| !in_range(*self, v) by {
                                if version_lt(l, v) && version_lt(v, u) {
                                    assert(version_le(succ_of(l), v));
                                    assert(version_lt(succ_of(l), u));
                                }
                            }
                        } else {
                            assert(in_range(*self, s));
                        }
                    }
                    empty
                }
            },
        }
    }
}

/// Whether `out` is `req` narrowed to `range`: `out`'s target admits exactly
/// the versions admitted by both.
pub open spec fn narrows_to(
    req: PythonRequirement,
    range: RequiresPythonRange,
    out: PythonRequirement,
) -> bool {
    forall|v: Version|
        in_range(out.target, v) <==> (in_range(req.target, v) && in_range(range, v))
}

impl PythonRequirement {
    /// Narrow this requirement to the given version range: the result's
    /// target admits exactly the versions admitted by both; absent when no
    /// version at all would remain.
    pub fn narrow(&self, range: &RequiresPythonRange) -> (r: Option<PythonRequirement>)
        ensures
            r is Some <==> exists|v: Version|
                in_range(self.target, v) && in_range(*range, v),
            r matches Some(q) ==> narrows_to(*self, *range, q),
    {
        let merged = self.target.intersect(range);
        if merged.is_empty() {
            None
        } else {
            Some(PythonRequirement { target: merged })
        }
    }
}

impl ResolverEnvironment {
    /// Narrow the given language-version requirement to this branch's
    /// version window.
    ///
    /// Deriving the tightest version range implied by a marker expression is
    /// the marker engine's job: the caller derives `requires_python` from
    /// this branch's [`Self::markers`] and passes it here. A pinned
    /// environment's expression is "always true" and implies no version
    /// constraint, so the answer there is absent regardless; likewise when
    /// no range was derived, or when narrowing the requirement to the range
    /// leaves no feasible version — the caller must then select no
    /// distribution for this branch under that requirement.
    pub fn narrow_python_requirement(
        &self,
        python_requirement: &PythonRequirement,
        requires_python: Option<RequiresPythonRange>,
    ) -> (r: Option<PythonRequirement>)
        ensures
            self.is_specific() ==> r is None,
            requires_python is None ==> r is None,
            !self.is_specific() && requires_python is Some ==> ((r is Some) <==> exists|v: Version|
                in_range(python_requirement.target, v) && in_range(requires_python.unwrap(), v)),
            !self.is_specific() && r is Some ==> narrows_to(
                *python_requirement,
                requires_python.unwrap(),
                r.unwrap(),
            ),
    {
        if self.kind_is_specific() {
            return None;
        }
        match requires_python {
            None => None,
            Some(range) => python_requirement.narrow(&range),
        }
    }
}

} // verus!
