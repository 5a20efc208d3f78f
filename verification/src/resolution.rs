//! The course of one query, as a machine that is told what happened and says
//! what to do next.
//!
//! The caller owns the registry and the constraint solver. It starts a
//! [`Resolution`], carries out the [`Action`] it is given, and reports the
//! [`Event`] that came of it, until the machine is done or fails. Rounds are
//! asked for one at a time: first one with no feature requested, then one for
//! each feature that can bring in a dependency, never two features together.
//! A package may declare features that exclude one another, and a round with
//! all of them could fail where each alone succeeds. The price is that a
//! dependency which only a combination of features brings in is not found.
//!
//! Where the answers of the registry and the solver are at hand already,
//! [`dependencies`] carries the whole query through on them.

use crate::error::{text_of, Error, ErrorView};
use crate::package::{root_key, Package, PackageKey};
use crate::package_set::{key_set, PackageSet};
use crate::requirement::{read_requirement, requirement_of};
use crate::summary::{
    activating_features, dependency_features, select_summary, selection, texts_of, VersionSummary,
};
use vstd::prelude::*;

verus! {

/// What a resolution is waiting for.
#[derive(Clone, Copy, Debug)]
pub enum Phase {
    /// For exclusive access to the registry.
    Locking,
    /// For the versions that the registry offers.
    Querying,
    /// For the answer to a resolution round.
    Resolving,
}

/// What the caller is asked to do.
#[derive(Debug, PartialEq, Eq)]
pub enum Action {
    /// Take exclusive access to the registry, and keep it until the
    /// resolution is done or has failed.
    AcquireLock,
    /// Ask the registry for the versions of exactly this package that meet
    /// the version requirement; any version where there is none.
    Query { name: String, version: Option<String> },
    /// Run the constraint solver on a root package `root` whose only
    /// dependency is the package `name` with the version requirement and, if
    /// one is given, that one feature requested. Nothing is locked
    /// beforehand. The solver is told to take in all features of the root,
    /// and its development dependencies, as the two flags say.
    Resolve {
        root: Package,
        name: String,
        version: Option<String>,
        feature: Option<String>,
        all_features: bool,
        dev_dependencies: bool,
    },
}

/// An [`Action`] as specifications see it.
pub enum ActionView {
    AcquireLock,
    Query { name: Seq<char>, version: Option<Seq<char>> },
    Resolve {
        root: PackageKey,
        name: Seq<char>,
        version: Option<Seq<char>>,
        feature: Option<Seq<char>>,
        all_features: bool,
        dev_dependencies: bool,
    },
}

impl View for Action {
    type V = ActionView;

    open spec fn view(&self) -> ActionView {
        match *self {
            Action::AcquireLock => ActionView::AcquireLock,
            Action::Query { name, version } => ActionView::Query {
                name: name@,
                version: text_of(version),
            },
            Action::Resolve {
                root,
                name,
                version,
                feature,
                all_features,
                dev_dependencies,
            } => ActionView::Resolve {
                root: root.key(),
                name: name@,
                version: text_of(version),
                feature: text_of(feature),
                all_features,
                dev_dependencies,
            },
        }
    }
}

/// What the caller reports back.
#[derive(Debug)]
pub enum Event {
    /// Exclusive access to the registry was obtained.
    LockAcquired,
    /// The registry offers these versions.
    Summaries(Vec<VersionSummary>),
    /// The constraint solver settled on these packages.
    Resolved(Vec<Package>),
    /// The action failed, with this message.
    Failed(String),
}

/// The state of a query under way.
#[derive(Debug)]
pub struct Resolution {
    name: String,
    version: Option<String>,
    phase: Phase,
    features: Vec<String>,
    round: usize,
    found: PackageSet,
}

/// A [`Resolution`] as specifications see it.
pub struct ResolutionView {
    /// The name of the package asked for.
    pub name: Seq<char>,
    /// The version requirement as the caller wrote it.
    pub version: Option<Seq<char>>,
    /// What the resolution is waiting for.
    pub phase: Phase,
    /// The features of the chosen version that can bring in a dependency.
    pub features: Seq<Seq<char>>,
    /// How many rounds have been answered.
    pub round: nat,
    /// The packages that the rounds answered so far settled on.
    pub found: Set<PackageKey>,
}

impl View for Resolution {
    type V = ResolutionView;

    closed spec fn view(&self) -> ResolutionView {
        ResolutionView {
            name: self.name@,
            version: text_of(self.version),
            phase: self.phase,
            features: texts_of(self.features@),
            round: self.round as nat,
            found: self.found@,
        }
    }
}

/// How a step ends where it does not fail.
#[derive(Debug)]
pub enum Step {
    /// The resolution goes on: the caller carries out the action and reports.
    Continue(Resolution, Action),
    /// The resolution is complete. These are the packages it found.
    Done(PackageSet),
}

/// How a step ends, as specifications see it.
pub enum StepView {
    Continue(ResolutionView, ActionView),
    Done(Set<PackageKey>),
    Failed(ErrorView),
}

/// The outcome of a step as specifications see it.
pub open spec fn outcome_view(outcome: Result<Step, Error>) -> StepView {
    match outcome {
        Ok(Step::Continue(resolution, action)) => StepView::Continue(resolution@, action@),
        Ok(Step::Done(set)) => StepView::Done(set@),
        Err(error) => StepView::Failed(error@),
    }
}

/// The text of an optional string slice.
pub open spec fn slice_text(text: Option<&str>) -> Option<Seq<char>> {
    match text {
        Some(text) => Some(text@),
        None => None,
    }
}

/// The state in which a query begins.
pub open spec fn initial(name: Seq<char>, version: Option<Seq<char>>) -> ResolutionView {
    ResolutionView {
        name,
        version,
        phase: Phase::Locking,
        features: Seq::empty(),
        round: 0,
        found: Set::empty(),
    }
}

/// The feature requested in the round that is due after `round` rounds were
/// answered: none in the first round, then the features in their order.
pub open spec fn feature_of_round(features: Seq<Seq<char>>, round: nat) -> Option<Seq<char>> {
    if round == 0 {
        None
    } else {
        Some(features[round - 1])
    }
}

/// The round in which the package `name` is resolved under the fabricated
/// root, with at most one feature requested.
pub open spec fn round_request(
    name: Seq<char>,
    version: Option<Seq<char>>,
    feature: Option<Seq<char>>,
) -> ActionView {
    ActionView::Resolve {
        root: root_key(),
        name,
        version,
        feature,
        all_features: true,
        dev_dependencies: true,
    }
}

/// The action that a resolution is waiting on.
pub open spec fn pending(state: ResolutionView) -> ActionView {
    match state.phase {
        Phase::Locking => ActionView::AcquireLock,
        Phase::Querying => ActionView::Query { name: state.name, version: state.version },
        Phase::Resolving => round_request(
            state.name,
            state.version,
            feature_of_round(state.features, state.round),
        ),
    }
}

/// The state after the version requirement was read and found in order.
pub open spec fn after_lock(state: ResolutionView) -> ResolutionView {
    ResolutionView { phase: Phase::Querying, ..state }
}

/// The state after a version was chosen.
pub open spec fn after_query(state: ResolutionView, chosen: VersionSummary) -> ResolutionView {
    ResolutionView {
        phase: Phase::Resolving,
        features: activating_features(chosen.spec_features()),
        round: 0,
        ..state
    }
}

/// What was found once the answer of a round is added: the packages that the
/// round settled on are collected without the fabricated root.
pub open spec fn collected(found: Set<PackageKey>, packages: Seq<Package>) -> Set<PackageKey> {
    found + key_set(packages).remove(root_key())
}

/// The state after a round was answered and another is due.
pub open spec fn after_round(state: ResolutionView, packages: Seq<Package>) -> ResolutionView {
    ResolutionView { round: state.round + 1, found: collected(state.found, packages), ..state }
}

/// One step of a resolution: what follows from a state and an event.
///
/// A failure ends the resolution with its message. Once access is exclusive
/// the version requirement is read, and the registry is asked. Of the
/// versions it offers the highest is chosen, or the package is not found,
/// under the name and the version requirement of the query. The first round
/// requests no feature; each answer is added to what was found, without the
/// fabricated root, and another round follows while a feature is left. After
/// the last round the fabricated root is taken out of the whole once more,
/// and the resolution is done. An event that does not answer the pending
/// action changes nothing, and the action is asked for again.
pub open spec fn step(state: ResolutionView, event: Event) -> StepView {
    match (state.phase, event) {
        (_, Event::Failed(message)) => StepView::Failed(ErrorView::CargoError(message@)),
        (Phase::Locking, Event::LockAcquired) => match requirement_of(state.version) {
            Ok(_) => StepView::Continue(after_lock(state), pending(after_lock(state))),
            Err(error) => StepView::Failed(error),
        },
        (Phase::Querying, Event::Summaries(summaries)) => match selection(
            state.name,
            state.version,
            summaries@,
        ) {
            Ok(chosen) => StepView::Continue(
                after_query(state, chosen),
                pending(after_query(state, chosen)),
            ),
            Err(error) => StepView::Failed(error),
        },
        (Phase::Resolving, Event::Resolved(packages)) => if state.round < state.features.len() {
            StepView::Continue(
                after_round(state, packages@),
                pending(after_round(state, packages@)),
            )
        } else {
            StepView::Done(collected(state.found, packages@).remove(root_key()))
        },
        _ => StepView::Continue(state, pending(state)),
    }
}

/// A copy of an optional string.
fn duplicate_text(text: &Option<String>) -> (copy: Option<String>)
    ensures
        text_of(copy) == text_of(*text),
{
    match text {
        Some(text) => Some(text.clone()),
        None => None,
    }
}

impl Resolution {
    #[verifier::type_invariant]
    spec fn well_formed(&self) -> bool {
        &&& self.phase is Resolving ==> self.round <= self.features@.len()
        &&& !self.found@.contains(root_key())
    }

    /// Begins a query for a package and an optional version requirement. The
    /// first thing to do is to take exclusive access to the registry.
    pub fn start(name: &str, version: Option<&str>) -> (begun: (Resolution, Action))
        ensures
            begun.0@ == initial(name@, slice_text(version)),
            begun.1@ == pending(begun.0@),
    {
        let version = match version {
            Some(text) => Some(text.to_owned()),
            None => None,
        };
        let resolution = Resolution {
            name: name.to_owned(),
            version,
            phase: Phase::Locking,
            features: Vec::new(),
            round: 0,
            found: PackageSet::new(),
        };
        proof {
            assert(texts_of(resolution.features@) =~= Seq::<Seq<char>>::empty());
        }
        (resolution, Action::AcquireLock)
    }

    /// The action that the resolution is waiting on.
    pub fn pending_action(&self) -> (action: Action)
        ensures
            action@ == pending(self@),
    {
        proof {
            use_type_invariant(self);
        }
        match self.phase {
            Phase::Locking => Action::AcquireLock,
            Phase::Querying => Action::Query {
                name: self.name.clone(),
                version: duplicate_text(&self.version),
            },
            Phase::Resolving => {
                let feature = if self.round == 0 {
                    None
                } else {
                    Some(self.features[self.round - 1].clone())
                };
                Action::Resolve {
                    root: Package::root(),
                    name: self.name.clone(),
                    version: duplicate_text(&self.version),
                    feature,
                    all_features: true,
                    dev_dependencies: true,
                }
            },
        }
    }

    /// Takes the event that came of the pending action and says how the
    /// resolution goes on.
    pub fn advance(self, event: Event) -> (outcome: Result<Step, Error>)
        ensures
            outcome_view(outcome) == step(self@, event),
            outcome matches Ok(Step::Done(set)) ==> !set@.contains(root_key()),
    {
        proof {
            use_type_invariant(&self);
        }
        match event {
            Event::Failed(message) => Err(Error::CargoError(message)),
            Event::LockAcquired => match self.phase {
                Phase::Locking => self.lock_acquired(),
                _ => self.ask_again(),
            },
            Event::Summaries(summaries) => match self.phase {
                Phase::Querying => self.summaries_received(summaries),
                _ => self.ask_again(),
            },
            Event::Resolved(packages) => match self.phase {
                Phase::Resolving => self.round_resolved(packages),
                _ => self.ask_again(),
            },
        }
    }

    /// Leaves the resolution as it is and repeats the pending action.
    fn ask_again(self) -> (outcome: Result<Step, Error>)
        ensures
            outcome_view(outcome) == StepView::Continue(self@, pending(self@)),
    {
        let action = self.pending_action();
        Ok(Step::Continue(self, action))
    }

    /// Reads the version requirement and asks the registry.
    fn lock_acquired(self) -> (outcome: Result<Step, Error>)
        requires
            self@.phase is Locking,
        ensures
            outcome_view(outcome) == step(self@, Event::LockAcquired),
    {
        proof {
            use_type_invariant(&self);
        }
        let Resolution { name, version, features, round, found, .. } = self;
        let read = match &version {
            Some(text) => read_requirement(Some(text.as_str())),
            None => read_requirement(None),
        };
        match read {
            Ok(_) => {
                let next = Resolution {
                    name,
                    version,
                    phase: Phase::Querying,
                    features,
                    round,
                    found,
                };
                let action = next.pending_action();
                Ok(Step::Continue(next, action))
            },
            Err(error) => Err(error),
        }
    }

    /// Chooses a version and asks for the first round.
    fn summaries_received(self, summaries: Vec<VersionSummary>) -> (outcome: Result<Step, Error>)
        requires
            self@.phase is Querying,
        ensures
            outcome_view(outcome) == step(self@, Event::Summaries(summaries)),
    {
        proof {
            use_type_invariant(&self);
        }
        let Resolution { name, version, found, .. } = self;
        match select_summary(name.as_str(), &version, summaries) {
            Ok(chosen) => {
                let features = dependency_features(&chosen);
                let next = Resolution {
                    name,
                    version,
                    phase: Phase::Resolving,
                    features,
                    round: 0,
                    found,
                };
                let action = next.pending_action();
                Ok(Step::Continue(next, action))
            },
            Err(error) => Err(error),
        }
    }

    /// Adds the answer of a round and asks for the next, or finishes.
    fn round_resolved(self, packages: Vec<Package>) -> (outcome: Result<Step, Error>)
        requires
            self@.phase is Resolving,
        ensures
            outcome_view(outcome) == step(self@, Event::Resolved(packages)),
            outcome matches Ok(Step::Done(set)) ==> !set@.contains(root_key()),
    {
        proof {
            use_type_invariant(&self);
        }
        let Resolution { name, version, phase, features, round, found } = self;
        let ghost before = found@;
        let mut found = found;
        found.extend(&packages);
        found.remove_root();
        proof {
            assert(found@ =~= collected(before, packages@));
            assert(found@ =~= collected(before, packages@).remove(root_key()));
        }
        if round < features.len() {
            let next = Resolution {
                name,
                version,
                phase,
                features,
                round: round + 1,
                found,
            };
            let action = next.pending_action();
            Ok(Step::Continue(next, action))
        } else {
            Ok(Step::Done(found))
        }
    }
}

/// The packages of each answer, in the order of the answers.
pub open spec fn contents(answers: Seq<Vec<Package>>) -> Seq<Seq<Package>> {
    answers.map_values(|answer: Vec<Package>| answer@)
}

/// Every package that some round settled on.
pub open spec fn union_of(rounds: Seq<Seq<Package>>) -> Set<PackageKey> {
    Set::new(
        |key: PackageKey|
            exists|i: int| 0 <= i < rounds.len() && #[trigger] key_set(rounds[i]).contains(key),
    )
}

/// What a query returns whose rounds were answered with `rounds`: every
/// package that some round settled on, but for the fabricated root.
pub open spec fn resolved(rounds: Seq<Seq<Package>>) -> Set<PackageKey> {
    union_of(rounds).remove(root_key())
}

/// The number of rounds that a query runs once this version was chosen: one
/// that requests no feature, and one for each feature that can bring in a
/// dependency.
pub open spec fn rounds_of(chosen: VersionSummary) -> nat {
    activating_features(chosen.spec_features()).len() + 1
}

/// What the registry and the constraint solver answer to one query.
#[derive(Debug)]
pub struct Answers {
    /// The versions that the registry offers.
    pub summaries: Vec<VersionSummary>,
    /// What the solver settles on, round by round: first in the round that
    /// requests no feature, then in the round of each feature of the chosen
    /// version that can bring in a dependency, in the order of its table.
    pub rounds: Vec<Vec<Package>>,
}

/// The message of the failure where a round is due and no answer is left.
pub const NO_ANSWER: &'static str = "no answer to a resolution round";

/// What a query gives against these answers.
///
/// A version requirement that cannot be read is an error. So is a registry
/// that offers nothing: the package is not found, under the name and the
/// version requirement of the query. Otherwise the highest version is chosen,
/// and as many rounds are run as it asks for. Where fewer answers are at
/// hand the query fails. Else it returns every package that one of these
/// rounds settled on, but for the fabricated root.
pub open spec fn query_result(
    name: Seq<char>,
    version: Option<Seq<char>>,
    summaries: Seq<VersionSummary>,
    rounds: Seq<Seq<Package>>,
) -> Result<Set<PackageKey>, ErrorView> {
    match requirement_of(version) {
        Err(error) => Err(error),
        Ok(_) => match selection(name, version, summaries) {
            Err(error) => Err(error),
            Ok(chosen) => if rounds.len() < rounds_of(chosen) {
                Err(ErrorView::CargoError(NO_ANSWER@))
            } else {
                Ok(resolved(rounds.take(rounds_of(chosen) as int)))
            },
        },
    }
}

/// The outcome of a query as specifications see it.
pub open spec fn result_view(outcome: Result<PackageSet, Error>) -> Result<
    Set<PackageKey>,
    ErrorView,
> {
    match outcome {
        Ok(set) => Ok(set@),
        Err(error) => Err(error@),
    }
}

/// Adding the answer of one more round to what the rounds before it gave.
pub proof fn lemma_resolved_next(rounds: Seq<Seq<Package>>, round: int)
    requires
        0 <= round < rounds.len(),
    ensures
        resolved(rounds.take(round + 1)) == collected(
            resolved(rounds.take(round)),
            rounds[round],
        ),
        resolved(rounds.take(round + 1)) == collected(
            resolved(rounds.take(round)),
            rounds[round],
        ).remove(root_key()),
{
    let shorter = rounds.take(round);
    let longer = rounds.take(round + 1);
    let sum = collected(resolved(shorter), rounds[round]);
    assert forall|key: PackageKey| resolved(longer).contains(key) == sum.contains(key) by {
        if union_of(longer).contains(key) {
            let i = choose|i: int|
                0 <= i < longer.len() && #[trigger] key_set(longer[i]).contains(key);
            if i < round {
                assert(shorter[i] == longer[i]);
                assert(key_set(shorter[i]).contains(key));
            }
        }
        if union_of(shorter).contains(key) {
            let i = choose|i: int|
                0 <= i < shorter.len() && #[trigger] key_set(shorter[i]).contains(key);
            assert(longer[i] == shorter[i]);
            assert(key_set(longer[i]).contains(key));
        }
        if key_set(rounds[round]).contains(key) {
            assert(longer[round] == rounds[round]);
            assert(key_set(longer[round]).contains(key));
        }
    }
    assert(resolved(longer) =~= sum);
    assert(resolved(longer) =~= sum.remove(root_key()));
}

/// A copy of a list of packages.
fn duplicate_packages(packages: &Vec<Package>) -> (copy: Vec<Package>)
    ensures
        copy@ == packages@,
{
    let mut copy: Vec<Package> = Vec::new();
    let mut index: usize = 0;
    while index < packages.len()
        invariant
            index <= packages@.len(),
            copy@ == packages@.take(index as int),
        decreases packages@.len() - index,
    {
        copy.push(packages[index].duplicate());
        proof {
            assert(copy@ =~= packages@.take(index + 1));
        }
        index = index + 1;
    }
    proof {
        assert(packages@.take(index as int) =~= packages@);
    }
    copy
}

/// Get the dependencies for a single package, from what the registry and the
/// constraint solver answer: exclusive access is granted, the registry
/// offers `answers.summaries`, and the rounds are answered in turn from
/// `answers.rounds`.
pub fn dependencies(name: &str, version: Option<&str>, answers: Answers) -> (outcome: Result<
    PackageSet,
    Error,
>)
    ensures
        result_view(outcome) == query_result(
            name@,
            slice_text(version),
            answers.summaries@,
            contents(answers.rounds@),
        ),
        outcome matches Ok(set) ==> !set@.contains(root_key()),
{
    let Answers { summaries, rounds } = answers;
    let ghost offered = summaries@;
    let ghost listed = contents(rounds@);
    let (resolution, _) = Resolution::start(name, version);
    let resolution = match resolution.advance(Event::LockAcquired) {
        Ok(Step::Continue(next, _)) => next,
        Ok(Step::Done(set)) => {
            return Ok(set);
        },
        Err(error) => {
            return Err(error);
        },
    };
    let mut resolution = match resolution.advance(Event::Summaries(summaries)) {
        Ok(Step::Continue(next, _)) => next,
        Ok(Step::Done(set)) => {
            return Ok(set);
        },
        Err(error) => {
            return Err(error);
        },
    };
    let ghost chosen = selection(name@, slice_text(version), offered)->Ok_0;
    let ghost begun = after_query(after_lock(initial(name@, slice_text(version))), chosen);
    let mut round: usize = 0;
    proof {
        assert(listed.take(0) =~= Seq::<Seq<Package>>::empty());
        assert(resolved(listed.take(0)) =~= Set::<PackageKey>::empty());
    }
    while round < rounds.len()
        invariant
            offered == answers.summaries@,
            listed == contents(answers.rounds@),
            listed == contents(rounds@),
            query_result(name@, slice_text(version), offered, listed) == (if listed.len()
                < rounds_of(chosen) {
                Err::<Set<PackageKey>, ErrorView>(ErrorView::CargoError(NO_ANSWER@))
            } else {
                Ok::<Set<PackageKey>, ErrorView>(resolved(listed.take(rounds_of(chosen) as int)))
            }),
            round <= rounds@.len(),
            round <= begun.features.len(),
            begun.phase is Resolving,
            rounds_of(chosen) == begun.features.len() + 1,
            resolution@ == (ResolutionView {
                round: round as nat,
                found: resolved(listed.take(round as int)),
                ..begun
            }),
        decreases rounds@.len() - round,
    {
        let answer = duplicate_packages(&rounds[round]);
        proof {
            assert(listed[round as int] == answer@);
            lemma_resolved_next(listed, round as int);
        }
        match resolution.advance(Event::Resolved(answer)) {
            Ok(Step::Continue(next, _)) => {
                resolution = next;
                round = round + 1;
            },
            Ok(Step::Done(set)) => {
                return Ok(set);
            },
            Err(error) => {
                return Err(error);
            },
        }
    }
    Err(Error::CargoError(NO_ANSWER.to_owned()))
}

/// What a set holds after the packages that a resolution found were merged
/// into it: all it held and all that was found, but for the fabricated root.
pub open spec fn merged(before: Set<PackageKey>, found: Set<PackageKey>) -> Set<PackageKey> {
    (before + found).remove(root_key())
}

/// Adds the packages that a resolution found to a set that the caller keeps,
/// and takes the fabricated root out of that set.
pub fn merge_dependencies(dependencies: &mut PackageSet, found: &PackageSet)
    ensures
        final(dependencies)@ == merged(old(dependencies)@, found@),
        !final(dependencies)@.contains(root_key()),
{
    dependencies.merge(found);
    dependencies.remove_root();
}

} // verus!
