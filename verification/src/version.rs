//! Semantic versions and their order, as the `semver` crate reads them.

use vstd::prelude::*;

verus! {

/// Whether `semver::Version::parse` accepts the text as a semantic version.
pub uninterp spec fn is_version(text: Seq<char>) -> bool;

/// Whether both texts are semantic versions and the first sorts below the
/// second in the total order of `semver::Version`.
pub uninterp spec fn version_precedes(lower: Seq<char>, higher: Seq<char>) -> bool;

/// Calls `semver::Version::parse` and reports whether it accepted the text.
/// Nothing else is claimed of the text.
#[verifier::external_body]
fn parses_as_version(text: &str) -> (accepted: bool)
    ensures
        accepted == is_version(text@),
{
    semver::Version::parse(text).is_ok()
}

/// Parses both texts with `semver::Version::parse` and compares the two
/// versions with the `<` of `semver::Version`. The answer is `false` where
/// either text is no version.
#[verifier::external_body]
fn parsed_precedes(lower: &str, higher: &str) -> (below: bool)
    ensures
        below == version_precedes(lower@, higher@),
{
    match (semver::Version::parse(lower), semver::Version::parse(higher)) {
        (Ok(lower), Ok(higher)) => lower < higher,
        _ => false,
    }
}

/// A semantic version, kept as the text it was read from.
#[derive(Debug)]
pub struct Version {
    text: String,
}

impl View for Version {
    type V = Seq<char>;

    closed spec fn view(&self) -> Seq<char> {
        self.text@
    }
}

impl Version {
    #[verifier::type_invariant]
    spec fn well_formed(&self) -> bool {
        is_version(self.text@)
    }

    /// Reads a semantic version. `None` where the text is not one.
    pub fn parse(text: &str) -> (version: Option<Version>)
        ensures
            version is Some <==> is_version(text@),
            version matches Some(v) ==> v@ == text@,
    {
        if parses_as_version(text) {
            Some(Version { text: text.to_owned() })
        } else {
            None
        }
    }

    /// The text of the version.
    pub fn as_str(&self) -> (text: &str)
        ensures
            text@ == self@,
            is_version(text@),
    {
        proof {
            use_type_invariant(self);
        }
        self.text.as_str()
    }

    /// Whether this version sorts below the other.
    pub fn precedes(&self, other: &Version) -> (below: bool)
        ensures
            below == version_precedes(self@, other@),
    {
        parsed_precedes(self.text.as_str(), other.text.as_str())
    }

    /// A second value for the same version.
    pub fn duplicate(&self) -> (copy: Version)
        ensures
            copy@ == self@,
    {
        proof {
            use_type_invariant(self);
        }
        Version { text: self.text.clone() }
    }
}

} // verus!
