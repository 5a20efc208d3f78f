//! What holds of every query, proved from the contracts of the other modules.

use crate::error::ErrorView;
use crate::package::{root_key, Package, PackageKey};
use crate::package_set::key_set;
use crate::requirement::requirement_of;
use crate::resolution::{
    after_lock, after_query, after_round, collected, contents, feature_of_round, initial, merged,
    pending, query_result, resolved, round_request, rounds_of, step, union_of, ActionView, Event,
    ResolutionView, StepView,
};
use crate::summary::{
    activating_features, best_index, lemma_best_index_in_range, versions_of, Feature,
    VersionSummary,
};
use crate::version::version_precedes;
use vstd::prelude::*;

verus! {

/// Where a resolution stands after a list of events, each taken in turn. Once
/// the resolution is done or has failed, later events change nothing.
pub open spec fn run(state: ResolutionView, events: Seq<Event>) -> StepView
    decreases events.len(),
{
    if events.len() == 0 {
        StepView::Continue(state, pending(state))
    } else {
        match step(state, events.first()) {
            StepView::Continue(next, _) => run(next, events.drop_first()),
            ended => ended,
        }
    }
}

/// The actions that a resolution asks for in answer to a list of events.
pub open spec fn requests(state: ResolutionView, events: Seq<Event>) -> Seq<ActionView>
    decreases events.len(),
{
    if events.len() == 0 {
        Seq::empty()
    } else {
        match step(state, events.first()) {
            StepView::Continue(next, action) => seq![action] + requests(next, events.drop_first()),
            _ => Seq::empty(),
        }
    }
}

/// The events of a round for each answer.
pub open spec fn round_events(answers: Seq<Vec<Package>>) -> Seq<Event> {
    answers.map_values(|answer: Vec<Package>| Event::Resolved(answer))
}

/// The events of a query in which every action succeeds: access is granted,
/// the registry offers `summaries`, and the rounds are answered in turn.
pub open spec fn script(summaries: Vec<VersionSummary>, answers: Seq<Vec<Package>>) -> Seq<Event> {
    seq![Event::LockAcquired, Event::Summaries(summaries)] + round_events(answers)
}

/// The rounds that are asked for with these features: one that requests no
/// feature, then one for each feature, in order.
pub open spec fn rounds_for(
    name: Seq<char>,
    version: Option<Seq<char>>,
    features: Seq<Seq<char>>,
) -> Seq<ActionView> {
    Seq::new(
        features.len() + 1,
        |round: int| round_request(name, version, feature_of_round(features, round as nat)),
    )
}

/// The summary that is chosen among those offered.
pub open spec fn chosen(summaries: Seq<VersionSummary>) -> VersionSummary {
    summaries[best_index(versions_of(summaries))]
}

/// What a query returns never holds the fabricated root, whatever the
/// registry offers and whatever the rounds settle on.
pub proof fn lemma_result_without_root(
    name: Seq<char>,
    version: Option<Seq<char>>,
    summaries: Seq<VersionSummary>,
    rounds: Seq<Seq<Package>>,
)
    ensures
        query_result(name, version, summaries, rounds) matches Ok(set) ==> !set.contains(
            root_key(),
        ),
{
}

/// While a resolution is under way, what it has found does not hold the
/// fabricated root: a step keeps it out.
pub proof fn lemma_found_without_root(state: ResolutionView, event: Event)
    requires
        !state.found.contains(root_key()),
    ensures
        step(state, event) matches StepView::Continue(next, _) ==> !next.found.contains(
            root_key(),
        ),
{
}

/// A resolution that is done never hands out the fabricated root.
pub proof fn lemma_done_without_root(state: ResolutionView, event: Event)
    ensures
        step(state, event) matches StepView::Done(set) ==> !set.contains(root_key()),
{
}

/// What a query returns never holds the fabricated root, whatever the rounds
/// settled on.
pub proof fn lemma_resolved_without_root(rounds: Seq<Seq<Package>>)
    ensures
        !resolved(rounds).contains(root_key()),
{
}

/// A set into which the result of a query was merged never holds the
/// fabricated root, whatever it held before.
pub proof fn lemma_merged_without_root(before: Set<PackageKey>, found: Set<PackageKey>)
    ensures
        !merged(before, found).contains(root_key()),
{
}

/// Of two versions of which one sorts below the other, the higher is chosen,
/// in whichever order the registry offers them.
pub proof fn lemma_higher_of_two_is_chosen(lower: Seq<char>, higher: Seq<char>)
    requires
        version_precedes(lower, higher),
        !version_precedes(higher, lower),
    ensures
        best_index(seq![lower, higher]) == 1,
        best_index(seq![higher, lower]) == 0,
{
    let up = seq![lower, higher];
    let down = seq![higher, lower];
    assert(up.drop_last() =~= seq![lower]);
    assert(down.drop_last() =~= seq![higher]);
    assert(best_index(up.drop_last()) == 0);
    assert(best_index(down.drop_last()) == 0);
}

/// Where the order of versions is a strict order on the versions offered (no
/// version sorts below itself, and below carries over), no offered version
/// sorts above the chosen one.
pub proof fn lemma_chosen_is_maximal(versions: Seq<Seq<char>>)
    requires
        versions.len() > 0,
        forall|i: int| 0 <= i < versions.len() ==> !version_precedes(versions[i], versions[i]),
        forall|i: int, j: int, k: int|
            0 <= i < versions.len() && 0 <= j < versions.len() && 0 <= k < versions.len()
                && version_precedes(versions[i], versions[j]) && version_precedes(
                versions[j],
                versions[k],
            ) ==> version_precedes(versions[i], versions[k]),
    ensures
        0 <= best_index(versions) < versions.len(),
        forall|j: int|
            0 <= j < versions.len() ==> !version_precedes(
                versions[best_index(versions)],
                #[trigger] versions[j],
            ),
    decreases versions.len(),
{
    lemma_best_index_in_range(versions);
    if versions.len() > 1 {
        let shorter = versions.drop_last();
        assert forall|i: int| 0 <= i < shorter.len() implies shorter[i] == versions[i] by {}
        lemma_chosen_is_maximal(shorter);
        let earlier = best_index(shorter);
        let last = versions.len() - 1;
        assert forall|j: int| 0 <= j < versions.len() implies !version_precedes(
            versions[best_index(versions)],
            #[trigger] versions[j],
        ) by {
            if j < last {
                assert(!version_precedes(shorter[earlier], shorter[j]));
                if version_precedes(versions[earlier], versions[last]) && version_precedes(
                    versions[last],
                    versions[j],
                ) {
                    assert(version_precedes(versions[earlier], versions[j]));
                }
            }
        }
    }
}

/// The features for which a round is run are those with at least one value
/// that names a dependency, by name and in the order of the feature table.
pub proof fn lemma_activating_features_are_filtered(features: Seq<Feature>)
    ensures
        activating_features(features) == features.filter(
            |feature: Feature| feature.activates(),
        ).map_values(|feature: Feature| feature.name@),
    decreases features.len(),
{
    reveal(Seq::filter);
    let activates = |feature: Feature| feature.activates();
    let name = |feature: Feature| feature.name@;
    if features.len() > 0 {
        lemma_activating_features_are_filtered(features.drop_last());
        let earlier = features.drop_last().filter(activates);
        if features.last().activates() {
            assert(earlier.push(features.last()).map_values(name) =~= earlier.map_values(name).push(
                features.last().name@,
            ));
        }
    }
    assert(activating_features(features) =~= features.filter(activates).map_values(name));
}

/// A version none of whose features names a dependency is resolved in a
/// single round.
pub proof fn lemma_plain_features_ask_no_round(features: Seq<Feature>)
    requires
        forall|i: int| 0 <= i < features.len() ==> !(#[trigger] features[i]).activates(),
    ensures
        activating_features(features).len() == 0,
    decreases features.len(),
{
    if features.len() > 0 {
        let shorter = features.drop_last();
        assert forall|i: int| 0 <= i < shorter.len() implies !(#[trigger] shorter[i]).activates()
        by {
            assert(shorter[i] == features[i]);
        }
        lemma_plain_features_ask_no_round(shorter);
    }
}

/// The union of the rounds is the first round together with the union of
/// the others.
proof fn lemma_union_first(rounds: Seq<Seq<Package>>)
    requires
        rounds.len() > 0,
    ensures
        union_of(rounds) == key_set(rounds.first()) + union_of(rounds.drop_first()),
{
    let rest = rounds.drop_first();
    assert forall|key: PackageKey|
        union_of(rounds).contains(key) == (key_set(rounds.first()) + union_of(rest)).contains(
            key,
        ) by {
        if union_of(rounds).contains(key) {
            let i = choose|i: int|
                0 <= i < rounds.len() && #[trigger] key_set(rounds[i]).contains(key);
            if i > 0 {
                assert(rest[i - 1] == rounds[i]);
                assert(key_set(rest[i - 1]).contains(key));
            }
        }
        if union_of(rest).contains(key) {
            let i = choose|i: int| 0 <= i < rest.len() && #[trigger] key_set(rest[i]).contains(key);
            assert(rounds[i + 1] == rest[i]);
            assert(key_set(rounds[i + 1]).contains(key));
        }
        if key_set(rounds.first()).contains(key) {
            assert(key_set(rounds[0]).contains(key));
        }
    }
    assert(union_of(rounds) =~= key_set(rounds.first()) + union_of(rest));
}

/// From a state that waits for a round, answers to this and all later rounds
/// complete the resolution; it asks for each later round in turn and then
/// holds all that was found, but for the fabricated root.
proof fn lemma_rounds_complete(state: ResolutionView, answers: Seq<Vec<Package>>)
    requires
        state.phase is Resolving,
        state.round <= state.features.len(),
        answers.len() == state.features.len() - state.round + 1,
    ensures
        run(state, round_events(answers)) == StepView::Done(
            (state.found + union_of(contents(answers))).remove(root_key()),
        ),
        requests(state, round_events(answers)) == rounds_for(
            state.name,
            state.version,
            state.features,
        ).skip(state.round as int + 1),
    decreases answers.len(),
{
    let events = round_events(answers);
    let rounds = contents(answers);
    let all = rounds_for(state.name, state.version, state.features);
    lemma_union_first(rounds);
    assert(events.first() == Event::Resolved(answers.first()));
    assert(rounds.first() == answers.first()@);
    if state.round < state.features.len() {
        let next = after_round(state, answers.first()@);
        let rest = answers.drop_first();
        lemma_rounds_complete(next, rest);
        assert(events.drop_first() =~= round_events(rest));
        assert(rounds.drop_first() =~= contents(rest));
        assert((next.found + union_of(contents(rest))).remove(root_key()) =~= (state.found
            + union_of(rounds)).remove(root_key()));
        assert(pending(next) == all[state.round as int + 1]);
        let round = state.round as int;
        assert(all.skip(round + 1) =~= seq![pending(next)] + all.skip(round + 2));
    } else {
        let rest = rounds.drop_first();
        assert(rest.len() == 0);
        assert(union_of(rest) =~= Set::<PackageKey>::empty());
        assert(collected(state.found, answers.first()@).remove(root_key()) =~= (state.found
            + union_of(rounds)).remove(root_key()));
        assert(all.skip(state.round as int + 1) =~= Seq::<ActionView>::empty());
    }
}

/// A query in which every action succeeds runs one round that requests no
/// feature and one round for each feature of the chosen version that can
/// bring in a dependency, each with that feature alone, and no other round.
/// It returns every package that some round settled on, but for the
/// fabricated root.
pub proof fn lemma_complete_run(
    name: Seq<char>,
    version: Option<Seq<char>>,
    summaries: Vec<VersionSummary>,
    answers: Seq<Vec<Package>>,
)
    requires
        requirement_of(version) is Ok,
        summaries@.len() > 0,
        answers.len() == 1 + activating_features(chosen(summaries@).spec_features()).len(),
    ensures
        run(initial(name, version), script(summaries, answers)) == StepView::Done(
            resolved(contents(answers)),
        ),
        requests(initial(name, version), script(summaries, answers)) == seq![
            ActionView::Query { name, version },
        ] + rounds_for(name, version, activating_features(chosen(summaries@).spec_features())),
        query_result(name, version, summaries@, contents(answers)) == Ok::<
            Set<PackageKey>,
            ErrorView,
        >(resolved(contents(answers))),
{
    assert(contents(answers).take(answers.len() as int) =~= contents(answers));
    let events = script(summaries, answers);
    let begun = initial(name, version);
    let locked = after_lock(begun);
    let queried = after_query(locked, chosen(summaries@));
    let all = rounds_for(name, version, queried.features);
    assert(events.first() == Event::LockAcquired);
    assert(events.drop_first() =~= seq![Event::Summaries(summaries)] + round_events(answers));
    assert(events.drop_first().first() == Event::Summaries(summaries));
    assert(events.drop_first().drop_first() =~= round_events(answers));
    assert(step(begun, Event::LockAcquired) == StepView::Continue(locked, pending(locked)));
    assert(step(locked, Event::Summaries(summaries)) == StepView::Continue(
        queried,
        pending(queried),
    ));
    lemma_rounds_complete(queried, answers);
    assert(queried.found + union_of(contents(answers)) =~= union_of(contents(answers)));
    assert(pending(queried) == all[0]);
    assert(seq![pending(queried)] + all.skip(1) =~= all);
    assert(run(locked, events.drop_first()) == run(queried, round_events(answers)));
    assert(requests(locked, events.drop_first()) =~= seq![pending(queried)] + requests(
        queried,
        round_events(answers),
    ));
}

/// The result of a query depends only on which packages each round settled
/// on: asked again with the registry unchanged, so that each round settles on
/// the same packages, in whatever order it lists them, the query returns the
/// same set.
pub proof fn lemma_same_answers_same_result(first: Seq<Seq<Package>>, second: Seq<Seq<Package>>)
    requires
        first.len() == second.len(),
        forall|i: int| 0 <= i < first.len() ==> key_set(#[trigger] first[i]) == key_set(second[i]),
    ensures
        resolved(first) == resolved(second),
{
    assert forall|key: PackageKey| union_of(first).contains(key) == union_of(second).contains(
        key,
    ) by {
        if union_of(first).contains(key) {
            let i = choose|i: int|
                0 <= i < first.len() && #[trigger] key_set(first[i]).contains(key);
            assert(key_set(first[i]) == key_set(second[i]));
            assert(key_set(second[i]).contains(key));
        }
        if union_of(second).contains(key) {
            let i = choose|i: int|
                0 <= i < second.len() && #[trigger] key_set(second[i]).contains(key);
            assert(key_set(first[i]) == key_set(second[i]));
            assert(key_set(first[i]).contains(key));
        }
    }
    assert(union_of(first) =~= union_of(second));
}

/// Asked again with the registry unchanged, a query gives the same: the same
/// set where each round settles on the same packages, in whatever order it
/// lists them, and the same error where it fails.
pub proof fn lemma_same_registry_same_result(
    name: Seq<char>,
    version: Option<Seq<char>>,
    summaries: Seq<VersionSummary>,
    first: Seq<Seq<Package>>,
    second: Seq<Seq<Package>>,
)
    requires
        first.len() == second.len(),
        forall|i: int| 0 <= i < first.len() ==> key_set(#[trigger] first[i]) == key_set(second[i]),
    ensures
        query_result(name, version, summaries, first) == query_result(
            name,
            version,
            summaries,
            second,
        ),
{
    if summaries.len() > 0 {
        let needed = rounds_of(chosen(summaries)) as int;
        if first.len() >= needed {
            lemma_same_answers_same_result(first.take(needed), second.take(needed));
        }
    }
}

/// Merging the result of a query into a set a second time changes nothing.
pub proof fn lemma_merge_twice(before: Set<PackageKey>, found: Set<PackageKey>)
    ensures
        merged(merged(before, found), found) == merged(before, found),
{
    assert(merged(merged(before, found), found) =~= merged(before, found));
}

/// Merging the result of a query into a set that does not hold the
/// fabricated root keeps all that the set held, and adds exactly what the
/// query returned and the set did not hold.
pub proof fn lemma_merge_is_union(before: Set<PackageKey>, rounds: Seq<Seq<Package>>)
    requires
        !before.contains(root_key()),
    ensures
        before.subset_of(merged(before, resolved(rounds))),
        merged(before, resolved(rounds)).difference(before) == resolved(rounds).difference(before),
        merged(before, resolved(rounds)) == before + resolved(rounds),
{
    let after = merged(before, resolved(rounds));
    assert(after =~= before + resolved(rounds));
    assert(after.difference(before) =~= resolved(rounds).difference(before));
}

/// The result of a query holds all that the round without features alone
/// would have given.
pub proof fn lemma_features_only_add(rounds: Seq<Seq<Package>>)
    requires
        rounds.len() > 0,
    ensures
        resolved(rounds.take(1)).subset_of(resolved(rounds)),
{
    assert forall|key: PackageKey| resolved(rounds.take(1)).contains(key) implies resolved(
        rounds,
    ).contains(key) by {
        let first = rounds.take(1);
        let i = choose|i: int| 0 <= i < first.len() && #[trigger] key_set(first[i]).contains(key);
        assert(first[i] == rounds[0]);
        assert(key_set(rounds[0]).contains(key));
    }
}

/// Whatever features the chosen version declares, what a query returns holds
/// all that the round without features settled on, but for the fabricated
/// root.
pub proof fn lemma_result_holds_first_round(
    name: Seq<char>,
    version: Option<Seq<char>>,
    summaries: Seq<VersionSummary>,
    rounds: Seq<Seq<Package>>,
)
    ensures
        query_result(name, version, summaries, rounds) matches Ok(set) ==> resolved(
            rounds.take(1),
        ).subset_of(set),
{
    if query_result(name, version, summaries, rounds) is Ok {
        let needed = rounds_of(chosen(summaries)) as int;
        let run = rounds.take(needed);
        assert(run.take(1) =~= rounds.take(1));
        lemma_features_only_add(run);
    }
}

/// Merging what a query returns into a set that does not hold the fabricated
/// root keeps all that the set held, and adds exactly what the query returned
/// and the set did not hold.
pub proof fn lemma_merge_keeps_and_adds(
    before: Set<PackageKey>,
    name: Seq<char>,
    version: Option<Seq<char>>,
    summaries: Seq<VersionSummary>,
    rounds: Seq<Seq<Package>>,
)
    requires
        !before.contains(root_key()),
    ensures
        query_result(name, version, summaries, rounds) matches Ok(set) ==> {
            &&& before.subset_of(merged(before, set))
            &&& merged(before, set).difference(before) == set.difference(before)
        },
{
    if query_result(name, version, summaries, rounds) is Ok {
        let needed = rounds_of(chosen(summaries)) as int;
        lemma_merge_is_union(before, rounds.take(needed));
    }
}

} // verus!
