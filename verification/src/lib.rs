//! Environment-partitioning core of a package-dependency resolver.
//!
//! A resolution must be valid for every runtime environment the caller cares
//! about. This crate tracks, per search branch, the set of environments that
//! branch is responsible for: it splits a branch into disjoint forks from a
//! list of seed marker expressions, narrows a branch's environment set as new
//! constraints are discovered, and answers whether a candidate dependency
//! specification applies within the branch's set.

pub mod env;
pub mod fork;
pub mod marker;
pub mod python;

pub use env::ResolverEnvironment;
pub use fork::ForkState;
pub use marker::overlaps;
pub use python::PythonRequirement;
pub use python::RequiresPythonRange;
pub use python::Version;
pub use python::VersionBound;
