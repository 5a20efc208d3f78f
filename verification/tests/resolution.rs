use dependency_closure::error::Error;
use dependency_closure::package::Package;
use dependency_closure::package_set::PackageSet;
use dependency_closure::resolution::{
    dependencies, merge_dependencies, Action, Answers, Event, Resolution, Step,
};
use dependency_closure::summary::{Feature, FeatureValue, VersionSummary};
use dependency_closure::version::Version;

/// A registry and a solver that answer from a table.
struct Fixture {
    summaries: Vec<(&'static str, Vec<(&'static str, Vec<FeatureValue>)>)>,
    rounds: Vec<(Option<&'static str>, Result<Vec<(&'static str, &'static str)>, &'static str>)>,
}

fn flag(name: &str) -> FeatureValue {
    FeatureValue::Feature(name.to_string())
}

fn optional(name: &str) -> FeatureValue {
    FeatureValue::Dep { dep_name: name.to_string() }
}

fn offered(fixture: &Fixture, name: &str) -> Vec<VersionSummary> {
    let mut summaries = Vec::new();
    for (version, features) in &fixture.summaries {
        let mut table = Vec::new();
        for (feature, values) in features {
            let mut copied = Vec::new();
            for value in values {
                copied.push(match value {
                    FeatureValue::Feature(name) => FeatureValue::Feature(name.clone()),
                    FeatureValue::Dep { dep_name } => {
                        FeatureValue::Dep { dep_name: dep_name.clone() }
                    }
                    FeatureValue::DepFeature { dep_name, dep_feature, weak } => {
                        FeatureValue::DepFeature {
                            dep_name: dep_name.clone(),
                            dep_feature: dep_feature.clone(),
                            weak: *weak,
                        }
                    }
                });
            }
            table.push(Feature { name: feature.to_string(), values: copied });
        }
        let version = Version::parse(version).unwrap();
        summaries.push(VersionSummary::new(name.to_string(), version, Vec::new(), table).unwrap());
    }
    summaries
}

/// Carries a query through against the fixture. Returns what the query gave
/// and every action that was asked for.
fn play(
    fixture: &Fixture,
    name: &str,
    version: Option<&str>,
) -> (Result<PackageSet, Error>, Vec<Action>) {
    let mut asked = Vec::new();
    let (mut resolution, mut action) = Resolution::start(name, version);
    loop {
        let event = match &action {
            Action::AcquireLock => Event::LockAcquired,
            Action::Query { name, .. } => Event::Summaries(offered(fixture, name)),
            Action::Resolve { root, feature, .. } => {
                assert_eq!(*root, Package::new("dummy-pkg", "0.1.0"));
                let answer = fixture
                    .rounds
                    .iter()
                    .find(|(requested, _)| requested.map(str::to_string) == *feature)
                    .map(|(_, answer)| answer.clone())
                    .unwrap();
                match answer {
                    Ok(listed) => Event::Resolved(packages(&listed)),
                    Err(message) => Event::Failed(message.to_string()),
                }
            }
        };
        asked.push(action);
        match resolution.advance(event) {
            Ok(Step::Continue(next, then)) => {
                resolution = next;
                action = then;
            }
            Ok(Step::Done(found)) => return (Ok(found), asked),
            Err(error) => return (Err(error), asked),
        }
    }
}

fn sorted(set: &PackageSet) -> Vec<Package> {
    let mut packages = set.to_vec();
    packages.sort();
    packages
}

fn packages(pairs: &[(&str, &str)]) -> Vec<Package> {
    pairs.iter().map(|(name, version)| Package::new(name, version)).collect()
}

fn resolve(name: &str, version: Option<&str>, feature: Option<&str>) -> Action {
    Action::Resolve {
        root: Package::new("dummy-pkg", "0.1.0"),
        name: name.to_string(),
        version: version.map(str::to_string),
        feature: feature.map(str::to_string),
        all_features: true,
        dev_dependencies: true,
    }
}

fn demo() -> Fixture {
    Fixture {
        summaries: vec![(
            "1.0.0",
            vec![("fa", vec![optional("opt")]), ("fb", vec![optional("opt")])],
        )],
        rounds: vec![
            (None, Ok(vec![("dummy-pkg", "0.1.0"), ("demo", "1.0.0"), ("base", "1.2.0")])),
            (
                Some("fa"),
                Ok(vec![
                    ("dummy-pkg", "0.1.0"),
                    ("demo", "1.0.0"),
                    ("base", "1.2.0"),
                    ("opt", "1.5.0"),
                ]),
            ),
            (
                Some("fb"),
                Ok(vec![
                    ("dummy-pkg", "0.1.0"),
                    ("demo", "1.0.0"),
                    ("base", "1.2.0"),
                    ("opt", "2.0.3"),
                ]),
            ),
        ],
    }
}

fn serde() -> Fixture {
    Fixture {
        summaries: vec![
            ("1.0.163", vec![("derive", vec![optional("serde_derive")])]),
            (
                "1.0.164",
                vec![
                    ("alloc", vec![]),
                    ("default", vec![flag("std")]),
                    ("derive", vec![optional("serde_derive")]),
                    ("std", vec![]),
                ],
            ),
            ("1.0.100", vec![]),
        ],
        rounds: vec![
            (None, Ok(vec![("dummy-pkg", "0.1.0"), ("serde", "1.0.164")])),
            (
                Some("derive"),
                Ok(vec![
                    ("serde", "1.0.164"),
                    ("serde_derive", "1.0.164"),
                    ("syn", "2.0.18"),
                    ("quote", "1.0.28"),
                    ("proc-macro2", "1.0.60"),
                    ("unicode-ident", "1.0.9"),
                    ("dummy-pkg", "0.1.0"),
                ]),
            ),
        ],
    }
}

#[test]
fn serde_with_version() {
    let (deps, asked) = play(&serde(), "serde", Some("1.0.164"));
    let deps = deps.unwrap();
    println!("{deps:#?}");
    assert_eq!(
        sorted(&deps),
        packages(&[
            ("proc-macro2", "1.0.60"),
            ("quote", "1.0.28"),
            ("serde", "1.0.164"),
            ("serde_derive", "1.0.164"),
            ("syn", "2.0.18"),
            ("unicode-ident", "1.0.9"),
        ])
    );
    assert_eq!(
        asked,
        vec![
            Action::AcquireLock,
            Action::Query { name: "serde".to_string(), version: Some("1.0.164".to_string()) },
            resolve("serde", Some("1.0.164"), None),
            resolve("serde", Some("1.0.164"), Some("derive")),
        ]
    );
}

#[test]
fn serde_without_version() {
    let (deps, asked) = play(&serde(), "serde", None);
    let deps = deps.unwrap();
    println!("{deps:#?}");
    assert_eq!(deps.len(), 6);
    assert!(deps.contains(&Package::new("serde", "1.0.164")));
    assert!(deps.contains(&Package::new("serde_derive", "1.0.164")));
    assert_eq!(
        asked,
        vec![
            Action::AcquireLock,
            Action::Query { name: "serde".to_string(), version: None },
            resolve("serde", None, None),
            resolve("serde", None, Some("derive")),
        ]
    );
}

#[test]
fn cargo_without_version() {
    let fixture = Fixture {
        summaries: vec![
            ("0.77.0", vec![("vendored-openssl", vec![optional("openssl")])]),
            (
                "0.78.1",
                vec![
                    ("all-static", vec![flag("vendored-libgit2"), flag("vendored-openssl")]),
                    ("openssl", vec![optional("openssl")]),
                    ("vendored-libgit2", vec![FeatureValue::DepFeature {
                        dep_name: "libgit2-sys".to_string(),
                        dep_feature: "vendored".to_string(),
                        weak: false,
                    }]),
                ],
            ),
        ],
        rounds: vec![
            (None, Ok(vec![("dummy-pkg", "0.1.0"), ("cargo", "0.78.1"), ("semver", "1.0.22")])),
            (Some("openssl"), Ok(vec![("cargo", "0.78.1"), ("openssl", "0.10.64")])),
            (Some("vendored-libgit2"), Ok(vec![("cargo", "0.78.1"), ("libgit2-sys", "0.16.2")])),
        ],
    };
    let (deps, asked) = play(&fixture, "cargo", None);
    let deps = deps.unwrap();
    println!("{deps:#?}");
    assert_eq!(
        sorted(&deps),
        packages(&[
            ("cargo", "0.78.1"),
            ("libgit2-sys", "0.16.2"),
            ("openssl", "0.10.64"),
            ("semver", "1.0.22"),
        ])
    );
    assert_eq!(asked.len(), 5);
}

#[test]
fn a_query_begins_by_taking_the_lock() {
    let (_, action) = Resolution::start("serde", Some("1"));
    assert_eq!(action, Action::AcquireLock);
    let (resolution, _) = Resolution::start("serde", Some("1"));
    assert_eq!(resolution.pending_action(), Action::AcquireLock);
}

#[test]
fn conflicting_features_are_resolved_apart() {
    let (deps, asked) = play(&demo(), "demo", Some("1.0.0"));
    assert_eq!(
        sorted(&deps.unwrap()),
        packages(&[("base", "1.2.0"), ("demo", "1.0.0"), ("opt", "1.5.0"), ("opt", "2.0.3")])
    );
    assert_eq!(
        asked[2..],
        [
            resolve("demo", Some("1.0.0"), None),
            resolve("demo", Some("1.0.0"), Some("fa")),
            resolve("demo", Some("1.0.0"), Some("fb")),
        ]
    );
}

#[test]
fn unknown_package_is_not_found() {
    let nothing = Fixture { summaries: vec![], rounds: vec![] };
    let (outcome, asked) = play(&nothing, "nonexistent-pkg-xyz", None);
    assert_eq!(
        outcome.unwrap_err(),
        Error::PackageNotFound { name: "nonexistent-pkg-xyz".to_string(), version: None }
    );
    assert_eq!(
        asked,
        vec![
            Action::AcquireLock,
            Action::Query { name: "nonexistent-pkg-xyz".to_string(), version: None },
        ]
    );
}

#[test]
fn not_found_names_the_requirement_as_given() {
    let nothing = Fixture { summaries: vec![], rounds: vec![] };
    let (outcome, _) = play(&nothing, "serde", Some("99.0.0"));
    assert_eq!(
        outcome.unwrap_err(),
        Error::PackageNotFound {
            name: "serde".to_string(),
            version: Some("99.0.0".to_string())
        }
    );
    let (outcome, _) = play(&nothing, "nope", Some(" >=1.0.0 ,<2"));
    assert_eq!(
        outcome.unwrap_err(),
        Error::PackageNotFound {
            name: "nope".to_string(),
            version: Some(" >=1.0.0 ,<2".to_string())
        }
    );
}

#[test]
fn malformed_requirement_fails_before_the_registry_is_asked() {
    let (outcome, asked) = play(&serde(), "serde", Some("not a version"));
    assert!(matches!(outcome, Err(Error::CargoError(_))));
    assert_eq!(asked, vec![Action::AcquireLock]);
}

#[test]
fn one_round_for_each_activating_feature_and_one_more() {
    let fixture = Fixture {
        summaries: vec![(
            "1.0.0",
            vec![
                ("a", vec![flag("b")]),
                ("b", vec![optional("x")]),
                ("c", vec![]),
                ("d", vec![flag("c"), optional("y")]),
                ("e", vec![flag("a"), flag("c")]),
            ],
        )],
        rounds: vec![
            (None, Ok(vec![("demo", "1.0.0")])),
            (Some("b"), Ok(vec![("demo", "1.0.0"), ("x", "0.1.0")])),
            (Some("d"), Ok(vec![("demo", "1.0.0"), ("y", "0.2.0")])),
        ],
    };
    let (deps, asked) = play(&fixture, "demo", None);
    assert_eq!(
        sorted(&deps.unwrap()),
        packages(&[("demo", "1.0.0"), ("x", "0.1.0"), ("y", "0.2.0")])
    );
    let rounds: Vec<&Action> =
        asked.iter().filter(|action| matches!(action, Action::Resolve { .. })).collect();
    assert_eq!(rounds.len(), 3);
    assert_eq!(*rounds[0], resolve("demo", None, None));
    assert_eq!(*rounds[1], resolve("demo", None, Some("b")));
    assert_eq!(*rounds[2], resolve("demo", None, Some("d")));
}

#[test]
fn plain_features_cost_no_round() {
    let fixture = Fixture {
        summaries: vec![("1.0.0", vec![("std", vec![]), ("default", vec![flag("std")])])],
        rounds: vec![(None, Ok(vec![("dummy-pkg", "0.1.0"), ("demo", "1.0.0")]))],
    };
    let (deps, asked) = play(&fixture, "demo", None);
    assert_eq!(sorted(&deps.unwrap()), packages(&[("demo", "1.0.0")]));
    assert_eq!(
        asked,
        vec![
            Action::AcquireLock,
            Action::Query { name: "demo".to_string(), version: None },
            resolve("demo", None, None),
        ]
    );
}

#[test]
fn the_result_never_holds_the_root() {
    for fixture in [demo(), serde()] {
        let name = if fixture.rounds.len() == 3 { "demo" } else { "serde" };
        let (deps, _) = play(&fixture, name, None);
        assert!(!deps.unwrap().contains(&Package::root()));
    }
}

#[test]
fn the_features_of_the_highest_version_are_explored() {
    let fixture = Fixture {
        summaries: vec![
            ("1.0.0", vec![("old", vec![optional("a")])]),
            ("2.0.0", vec![("new", vec![optional("b")])]),
            ("1.5.0", vec![("middle", vec![optional("c")])]),
        ],
        rounds: vec![
            (None, Ok(vec![("demo", "2.0.0")])),
            (Some("new"), Ok(vec![("demo", "2.0.0"), ("b", "1.0.0")])),
        ],
    };
    let (deps, asked) = play(&fixture, "demo", None);
    assert_eq!(sorted(&deps.unwrap()), packages(&[("b", "1.0.0"), ("demo", "2.0.0")]));
    assert_eq!(asked.last(), Some(&resolve("demo", None, Some("new"))));
}

#[test]
fn asking_twice_gives_the_same_set() {
    let (first, _) = play(&demo(), "demo", Some("1.0.0"));
    let (second, _) = play(&demo(), "demo", Some("1.0.0"));
    assert_eq!(sorted(&first.unwrap()), sorted(&second.unwrap()));
}

#[test]
fn the_order_of_an_answer_does_not_matter() {
    let mut shuffled = demo();
    for (_, answer) in shuffled.rounds.iter_mut() {
        if let Ok(packages) = answer {
            packages.reverse();
            let again = packages[0];
            packages.push(again);
        }
    }
    let (first, _) = play(&demo(), "demo", None);
    let (second, _) = play(&shuffled, "demo", None);
    assert_eq!(sorted(&first.unwrap()), sorted(&second.unwrap()));
}

#[test]
fn the_result_holds_what_the_first_round_gave() {
    let (all, _) = play(&demo(), "demo", None);
    let all = all.unwrap();
    let mut bare = demo();
    bare.summaries = vec![("1.0.0", vec![])];
    let (first_round, asked) = play(&bare, "demo", None);
    assert_eq!(asked.len(), 3);
    let first_round = first_round.unwrap();
    assert_eq!(sorted(&first_round), packages(&[("base", "1.2.0"), ("demo", "1.0.0")]));
    for package in first_round.to_vec() {
        assert!(all.contains(&package));
    }
}

#[test]
fn merging_a_query_into_a_kept_set() {
    let mut kept = PackageSet::new();
    kept.insert(Package::new("base", "1.2.0"));
    kept.insert(Package::new("other", "3.0.0"));
    let before = sorted(&kept);
    let (found, _) = play(&demo(), "demo", Some("1.0.0"));
    let found = found.unwrap();
    merge_dependencies(&mut kept, &found);
    for package in &before {
        assert!(kept.contains(package));
    }
    let added: Vec<Package> =
        sorted(&kept).into_iter().filter(|package| !before.contains(package)).collect();
    let expected: Vec<Package> =
        sorted(&found).into_iter().filter(|package| !before.contains(package)).collect();
    assert_eq!(added, expected);
    assert_eq!(added, packages(&[("demo", "1.0.0"), ("opt", "1.5.0"), ("opt", "2.0.3")]));
}

#[test]
fn a_failed_round_fails_the_query() {
    let mut broken = demo();
    broken.rounds[1].1 = Err("failed to select a version for `opt`");
    let (outcome, asked) = play(&broken, "demo", None);
    assert_eq!(
        outcome.unwrap_err(),
        Error::CargoError("failed to select a version for `opt`".to_string())
    );
    assert_eq!(asked.len(), 4);
}

#[test]
fn a_failure_ends_any_phase() {
    let (resolution, _) = Resolution::start("demo", None);
    let outcome = resolution.advance(Event::Failed("lock is held elsewhere".to_string()));
    assert_eq!(outcome.unwrap_err(), Error::CargoError("lock is held elsewhere".to_string()));

    let (resolution, _) = Resolution::start("demo", None);
    let Ok(Step::Continue(resolution, _)) = resolution.advance(Event::LockAcquired) else {
        panic!("the registry should be asked");
    };
    let outcome = resolution.advance(Event::Failed("index is corrupt".to_string()));
    assert_eq!(outcome.unwrap_err(), Error::CargoError("index is corrupt".to_string()));
}

#[test]
fn an_event_that_answers_nothing_is_passed_over() {
    let (resolution, _) = Resolution::start("demo", Some("1"));
    let Ok(Step::Continue(resolution, action)) = resolution.advance(Event::Resolved(Vec::new()))
    else {
        panic!("the lock should be asked for again");
    };
    assert_eq!(action, Action::AcquireLock);
    let Ok(Step::Continue(resolution, action)) = resolution.advance(Event::Summaries(Vec::new()))
    else {
        panic!("the lock should be asked for again");
    };
    assert_eq!(action, Action::AcquireLock);
    let Ok(Step::Continue(resolution, query)) = resolution.advance(Event::LockAcquired) else {
        panic!("the registry should be asked");
    };
    assert_eq!(query, Action::Query { name: "demo".to_string(), version: Some("1".to_string()) });
    let Ok(Step::Continue(resolution, action)) = resolution.advance(Event::LockAcquired) else {
        panic!("the registry should be asked again");
    };
    assert_eq!(action, query);
    let Ok(Step::Continue(resolution, action)) =
        resolution.advance(Event::Resolved(packages(&[("stray", "1.0.0")])))
    else {
        panic!("the registry should be asked again");
    };
    assert_eq!(action, query);
    assert_eq!(resolution.pending_action(), query);
}

fn recorded(fixture: &Fixture, name: &str) -> Answers {
    let mut rounds = Vec::new();
    for (_, answer) in &fixture.rounds {
        rounds.push(packages(answer.as_ref().unwrap()));
    }
    Answers { summaries: offered(fixture, name), rounds }
}

#[test]
fn a_whole_query_against_answers_at_hand() {
    let found = dependencies("demo", Some("1.0.0"), recorded(&demo(), "demo")).unwrap();
    assert_eq!(
        sorted(&found),
        packages(&[("base", "1.2.0"), ("demo", "1.0.0"), ("opt", "1.5.0"), ("opt", "2.0.3")])
    );
    assert!(!found.contains(&Package::root()));
}

#[test]
fn a_whole_query_gives_what_the_steps_give() {
    for version in [None, Some("1.0.164"), Some("^1")] {
        let whole = dependencies("serde", version, recorded(&serde(), "serde")).unwrap();
        let (stepwise, _) = play(&serde(), "serde", version);
        assert_eq!(sorted(&whole), sorted(&stepwise.unwrap()));
    }
}

#[test]
fn a_whole_query_twice_gives_the_same() {
    let first = dependencies("demo", None, recorded(&demo(), "demo")).unwrap();
    let second = dependencies("demo", None, recorded(&demo(), "demo")).unwrap();
    assert_eq!(sorted(&first), sorted(&second));
    let nothing = Fixture { summaries: vec![], rounds: vec![] };
    let first = dependencies("nope", Some("1.0.0"), recorded(&nothing, "nope"));
    let second = dependencies("nope", Some("1.0.0"), recorded(&nothing, "nope"));
    assert_eq!(first.unwrap_err(), second.unwrap_err());
}

#[test]
fn a_whole_query_for_an_unknown_package() {
    let nothing = Fixture { summaries: vec![], rounds: vec![] };
    assert_eq!(
        dependencies("nope", Some("1.0.0"), recorded(&nothing, "nope")).unwrap_err(),
        Error::PackageNotFound { name: "nope".to_string(), version: Some("1.0.0".to_string()) }
    );
    assert_eq!(
        dependencies("nonexistent-pkg-xyz", None, recorded(&nothing, "nope")).unwrap_err(),
        Error::PackageNotFound { name: "nonexistent-pkg-xyz".to_string(), version: None }
    );
}

#[test]
fn a_whole_query_with_a_malformed_requirement() {
    assert_eq!(
        dependencies("demo", Some("@1.0.0"), recorded(&demo(), "demo")).unwrap_err(),
        Error::CargoError(
            "unexpected character '@' while parsing major version number".to_string()
        )
    );
}

#[test]
fn a_round_without_an_answer_fails() {
    let mut answers = recorded(&demo(), "demo");
    answers.rounds.pop();
    assert_eq!(
        dependencies("demo", None, answers).unwrap_err(),
        Error::CargoError("no answer to a resolution round".to_string())
    );
    let mut answers = recorded(&demo(), "demo");
    answers.rounds.clear();
    assert_eq!(
        dependencies("demo", None, answers).unwrap_err(),
        Error::CargoError("no answer to a resolution round".to_string())
    );
}

#[test]
fn answers_past_the_last_round_are_left_aside() {
    let mut answers = recorded(&demo(), "demo");
    answers.rounds.push(packages(&[("stray", "9.9.9")]));
    let found = dependencies("demo", None, answers).unwrap();
    assert_eq!(found.len(), 4);
    assert!(!found.contains(&Package::new("stray", "9.9.9")));
}

#[test]
fn a_whole_query_holds_what_the_first_round_gave() {
    let answers = recorded(&demo(), "demo");
    let first_round: Vec<Package> =
        answers.rounds[0].iter().filter(|package| !package.is_root()).cloned().collect();
    let found = dependencies("demo", None, answers).unwrap();
    assert_eq!(first_round.len(), 2);
    for package in &first_round {
        assert!(found.contains(package));
    }
}
