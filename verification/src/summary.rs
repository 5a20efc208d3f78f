//! What the registry publishes about one version of a package, and the two
//! decisions taken on it: which version to inspect, and which of its features
//! can bring in a further dependency.

use crate::error::{text_of, Error, ErrorView};
use crate::version::{version_precedes, Version};
use vstd::prelude::*;

verus! {

/// One entry in the list of things that a feature switches on.
#[derive(Debug)]
pub enum FeatureValue {
    /// Another feature of the same package.
    Feature(String),
    /// An optional dependency.
    Dep { dep_name: String },
    /// A feature of a dependency. With `weak`, the dependency itself is only
    /// configured, not requested.
    DepFeature { dep_name: String, dep_feature: String, weak: bool },
}

impl FeatureValue {
    /// Whether the value names a dependency, so that the feature it belongs
    /// to can add an edge to the dependency graph.
    pub open spec fn activates(&self) -> bool {
        *self is Dep || *self is DepFeature
    }

    /// Whether the value names a dependency.
    pub fn activates_dependency(&self) -> (yes: bool)
        ensures
            yes == self.activates(),
    {
        match self {
            FeatureValue::Feature(_) => false,
            FeatureValue::Dep { .. } => true,
            FeatureValue::DepFeature { .. } => true,
        }
    }
}

/// A named feature and what it switches on.
#[derive(Debug)]
pub struct Feature {
    pub name: String,
    pub values: Vec<FeatureValue>,
}

impl Feature {
    /// Whether at least one value of the feature names a dependency.
    pub open spec fn activates(&self) -> bool {
        exists|i: int| 0 <= i < self.values@.len() && (#[trigger] self.values@[i]).activates()
    }

    /// Whether at least one value of the feature names a dependency.
    pub fn activates_dependency(&self) -> (yes: bool)
        ensures
            yes == self.activates(),
    {
        let mut index: usize = 0;
        while index < self.values.len()
            invariant
                index <= self.values@.len(),
                forall|i: int| 0 <= i < index ==> !(#[trigger] self.values@[i]).activates(),
            decreases self.values@.len() - index,
        {
            if self.values[index].activates_dependency() {
                return true;
            }
            index = index + 1;
        }
        false
    }
}

/// A dependency that a published version declares.
#[derive(Debug)]
pub struct DependencyRequirement {
    pub name: String,
    pub version_req: String,
    pub optional: bool,
}

/// Whether no two features of the list share a name.
pub open spec fn distinct_names(features: Seq<Feature>) -> bool {
    forall|i: int, j: int|
        0 <= i < j < features.len() ==> (#[trigger] features[i]).name@ != (
        #[trigger] features[j]).name@
}

/// The names of the features that can bring in a dependency, in the order in
/// which the features are listed.
pub open spec fn activating_features(features: Seq<Feature>) -> Seq<Seq<char>>
    decreases features.len(),
{
    if features.len() == 0 {
        Seq::empty()
    } else {
        let earlier = activating_features(features.drop_last());
        if features.last().activates() {
            earlier.push(features.last().name@)
        } else {
            earlier
        }
    }
}

/// The texts of a list of strings.
pub open spec fn texts_of(strings: Seq<String>) -> Seq<Seq<char>> {
    strings.map_values(|text: String| text@)
}

/// The metadata of one published version of a package. Its feature table
/// maps each feature name to one list of values.
#[derive(Debug)]
pub struct VersionSummary {
    name: String,
    version: Version,
    dependencies: Vec<DependencyRequirement>,
    features: Vec<Feature>,
}

impl VersionSummary {
    #[verifier::type_invariant]
    spec fn well_formed(&self) -> bool {
        distinct_names(self.features@)
    }

    /// The name of the package.
    pub closed spec fn spec_name(&self) -> Seq<char> {
        self.name@
    }

    /// The text of the version.
    pub closed spec fn spec_version(&self) -> Seq<char> {
        self.version@
    }

    /// The declared dependencies.
    pub closed spec fn spec_dependencies(&self) -> Seq<DependencyRequirement> {
        self.dependencies@
    }

    /// The feature table, in its declared order.
    pub closed spec fn spec_features(&self) -> Seq<Feature> {
        self.features@
    }

    /// Puts a summary together. `None` where two features share a name.
    pub fn new(
        name: String,
        version: Version,
        dependencies: Vec<DependencyRequirement>,
        features: Vec<Feature>,
    ) -> (summary: Option<VersionSummary>)
        ensures
            summary is Some <==> distinct_names(features@),
            summary matches Some(s) ==> {
                &&& s.spec_name() == name@
                &&& s.spec_version() == version@
                &&& s.spec_dependencies() == dependencies@
                &&& s.spec_features() == features@
            },
    {
        if has_distinct_names(&features) {
            Some(VersionSummary { name, version, dependencies, features })
        } else {
            None
        }
    }

    /// The name of the package.
    pub fn name(&self) -> (name: &String)
        ensures
            name@ == self.spec_name(),
    {
        &self.name
    }

    /// The version that this summary describes.
    pub fn version(&self) -> (version: &Version)
        ensures
            version@ == self.spec_version(),
    {
        &self.version
    }

    /// The declared dependencies.
    pub fn declared_dependencies(&self) -> (dependencies: &Vec<DependencyRequirement>)
        ensures
            dependencies@ == self.spec_dependencies(),
    {
        &self.dependencies
    }

    /// The feature table, in its declared order.
    pub fn declared_features(&self) -> (features: &Vec<Feature>)
        ensures
            features@ == self.spec_features(),
            distinct_names(features@),
    {
        proof {
            use_type_invariant(self);
        }
        &self.features
    }
}

/// Whether no two features of the list share a name.
fn has_distinct_names(features: &Vec<Feature>) -> (distinct: bool)
    ensures
        distinct == distinct_names(features@),
{
    let mut upper: usize = 0;
    while upper < features.len()
        invariant
            upper <= features@.len(),
            distinct_names(features@.take(upper as int)),
        decreases features@.len() - upper,
    {
        let mut lower: usize = 0;
        while lower < upper
            invariant
                lower <= upper < features@.len(),
                forall|i: int|
                    0 <= i < lower ==> (#[trigger] features@[i]).name@
                        != features@[upper as int].name@,
            decreases upper - lower,
        {
            if features[lower].name == features[upper].name {
                return false;
            }
            lower = lower + 1;
        }
        proof {
            let longer = features@.take(upper + 1);
            assert forall|i: int, j: int| 0 <= i < j < longer.len() implies (
            #[trigger] longer[i]).name@ != (#[trigger] longer[j]).name@ by {
                if j < upper {
                    let shorter = features@.take(upper as int);
                    assert(shorter[i] == longer[i] && shorter[j] == longer[j]);
                }
            }
        }
        upper = upper + 1;
    }
    proof {
        assert(features@.take(upper as int) =~= features@);
    }
    true
}

/// The names of the features of a summary that can bring in a dependency, in
/// the order of its feature table. A feature whose values are all plain
/// features is left out.
pub fn dependency_features(summary: &VersionSummary) -> (names: Vec<String>)
    ensures
        texts_of(names@) == activating_features(summary.spec_features()),
{
    let features = summary.declared_features();
    let mut names: Vec<String> = Vec::new();
    let mut index: usize = 0;
    proof {
        assert(texts_of(names@) =~= activating_features(features@.take(0)));
    }
    while index < features.len()
        invariant
            index <= features@.len(),
            texts_of(names@) == activating_features(features@.take(index as int)),
        decreases features@.len() - index,
    {
        let ghost before = names@;
        if features[index].activates_dependency() {
            names.push(features[index].name.clone());
            proof {
                assert(texts_of(names@) =~= texts_of(before).push(features@[index as int].name@));
            }
        }
        proof {
            let longer = features@.take(index + 1);
            assert(longer.drop_last() =~= features@.take(index as int));
            assert(longer.last() == features@[index as int]);
        }
        index = index + 1;
    }
    proof {
        assert(features@.take(index as int) =~= features@);
    }
    names
}

/// The version texts of a list of summaries, in the same order.
pub open spec fn versions_of(summaries: Seq<VersionSummary>) -> Seq<Seq<char>> {
    summaries.map_values(|summary: VersionSummary| summary.spec_version())
}

/// The position that is chosen once a further version was looked at: the new
/// one where the version chosen so far sorts below it, else the old one.
pub open spec fn kept_or_replaced(best: int, index: int, below: bool) -> int {
    if below {
        index
    } else {
        best
    }
}

/// The position that is chosen once the version at `index` was looked at,
/// given whether the version at `best`, chosen so far, sorts below it.
pub fn keep_or_replace(best: usize, index: usize, below: bool) -> (chosen: usize)
    ensures
        chosen == kept_or_replaced(best as int, index as int, below),
{
    if below {
        index
    } else {
        best
    }
}

/// The position of the version to inspect: going through the list, a version
/// replaces the one chosen so far where that one sorts below it. Of several
/// versions that do not sort below one another, the first is kept.
pub open spec fn best_index(versions: Seq<Seq<char>>) -> int
    decreases versions.len(),
{
    if versions.len() <= 1 {
        0
    } else {
        let earlier = best_index(versions.drop_last());
        kept_or_replaced(
            earlier,
            versions.len() - 1,
            version_precedes(versions[earlier], versions.last()),
        )
    }
}

/// The chosen position lies within the list.
pub proof fn lemma_best_index_in_range(versions: Seq<Seq<char>>)
    requires
        versions.len() > 0,
    ensures
        0 <= best_index(versions) < versions.len(),
    decreases versions.len(),
{
    if versions.len() > 1 {
        lemma_best_index_in_range(versions.drop_last());
    }
}

/// What the selection answers: the summary at the chosen position, or that
/// the package was not found where the registry offered nothing. The error
/// names the package and the version requirement as the query gave them.
pub open spec fn selection(
    name: Seq<char>,
    version: Option<Seq<char>>,
    summaries: Seq<VersionSummary>,
) -> Result<VersionSummary, ErrorView> {
    if summaries.len() == 0 {
        Err(ErrorView::PackageNotFound { name, version })
    } else {
        Ok(summaries[best_index(versions_of(summaries))])
    }
}

/// Picks the summary of the highest version among those that the registry
/// offered for the package `name` under the version requirement `version` of
/// the query.
pub fn select_summary(
    name: &str,
    version: &Option<String>,
    summaries: Vec<VersionSummary>,
) -> (chosen: Result<VersionSummary, Error>)
    ensures
        match chosen {
            Ok(summary) => selection(name@, text_of(*version), summaries@) == Ok::<
                VersionSummary,
                ErrorView,
            >(summary),
            Err(error) => selection(name@, text_of(*version), summaries@) == Err::<
                VersionSummary,
                ErrorView,
            >(error@),
        },
{
    if summaries.len() == 0 {
        let version = match version {
            Some(text) => Some(text.clone()),
            None => None,
        };
        return Err(Error::PackageNotFound { name: name.to_owned(), version });
    }
    let mut summaries = summaries;
    let ghost all = summaries@;
    let mut best: usize = 0;
    let mut index: usize = 1;
    proof {
        assert(versions_of(all).take(1).len() == 1);
    }
    while index < summaries.len()
        invariant
            summaries@ == all,
            1 <= index <= all.len(),
            best < index,
            best == best_index(versions_of(all).take(index as int)),
        decreases all.len() - index,
    {
        let below = summaries[best].version().precedes(summaries[index].version());
        proof {
            let longer = versions_of(all).take(index + 1);
            assert(longer.drop_last() =~= versions_of(all).take(index as int));
            assert(longer.last() == all[index as int].spec_version());
            assert(longer[best as int] == all[best as int].spec_version());
        }
        best = keep_or_replace(best, index, below);
        index = index + 1;
    }
    proof {
        assert(versions_of(all).take(index as int) =~= versions_of(all));
    }
    Ok(summaries.swap_remove(best))
}

} // verus!
