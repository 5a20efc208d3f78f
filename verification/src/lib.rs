//! Feature-aware enumeration of the packages that one package may require.
//!
//! Given a package name and an optional version requirement, the crate decides
//! which published version to inspect, which of its features can bring in a
//! further dependency, which resolution rounds have to be run, and how their
//! results are merged into one set of packages. Talking to the registry and
//! running the constraint solver is left to the caller, who is told what to do
//! next by [`resolution::Resolution`] and reports back what happened.

pub mod error;
pub mod laws;
pub mod package;
pub mod package_set;
pub mod requirement;
pub mod resolution;
pub mod summary;
pub mod version;
