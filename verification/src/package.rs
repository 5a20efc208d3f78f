//! The package identity that results are made of.

use vstd::prelude::*;

verus! {

/// What identifies a package in specifications: its name and its version.
pub type PackageKey = (Seq<char>, Seq<char>);

/// The name of the fabricated package that anchors a resolution round.
pub const DUMMY_PACKAGE_NAME: &'static str = "dummy-pkg";

/// The version of the fabricated package that anchors a resolution round.
pub const DUMMY_PACKAGE_VERSION: &'static str = "0.1.0";

/// The identity of the fabricated root package. It is never part of a result.
pub open spec fn root_key() -> PackageKey {
    (DUMMY_PACKAGE_NAME@, DUMMY_PACKAGE_VERSION@)
}

/// A package dependency.
#[derive(Clone, Debug, Eq, PartialOrd, Ord, Hash)]
pub struct Package {
    pub name: String,
    pub version: String,
}

impl Package {
    /// The name and version of this package.
    pub open spec fn key(&self) -> PackageKey {
        (self.name@, self.version@)
    }

    /// A package with the given name and version.
    pub fn new(name: &str, version: &str) -> (package: Package)
        ensures
            package.key() == (name@, version@),
    {
        Package { name: name.to_owned(), version: version.to_owned() }
    }

    /// The fabricated root package.
    pub fn root() -> (package: Package)
        ensures
            package.key() == root_key(),
    {
        Package::new(DUMMY_PACKAGE_NAME, DUMMY_PACKAGE_VERSION)
    }

    /// Whether this is the fabricated root package.
    pub fn is_root(&self) -> (yes: bool)
        ensures
            yes == (self.key() == root_key()),
    {
        let root = Package::root();
        self.name == root.name && self.version == root.version
    }

    /// A second value for the same package.
    pub fn duplicate(&self) -> (copy: Package)
        ensures
            copy == *self,
    {
        Package { name: self.name.clone(), version: self.version.clone() }
    }
}

impl PartialEq for Package {
    fn eq(&self, other: &Package) -> (same: bool) {
        self.name == other.name && self.version == other.version
    }
}

impl vstd::std_specs::cmp::PartialEqSpecImpl for Package {
    open spec fn obeys_eq_spec() -> bool {
        true
    }

    open spec fn eq_spec(&self, other: &Package) -> bool {
        self.name@ == other.name@ && self.version@ == other.version@
    }
}

} // verus!
