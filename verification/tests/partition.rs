use resolver_env::ForkState;
use resolver_env::PythonRequirement;
use resolver_env::RequiresPythonRange;
use resolver_env::ResolverEnvironment;
use resolver_env::Version;
use resolver_env::VersionBound;
use uv_pep508::MarkerEnvironment;
use uv_pep508::MarkerEnvironmentBuilder;
use uv_pep508::MarkerTree;
use uv_pypi_types::ResolverMarkerEnvironment;

fn descriptor(python: &str, sys_platform: &str) -> ResolverMarkerEnvironment {
    let env = MarkerEnvironment::try_from(MarkerEnvironmentBuilder {
        implementation_name: "cpython",
        implementation_version: python,
        os_name: "posix",
        platform_machine: "x86_64",
        platform_python_implementation: "CPython",
        platform_release: "6.1.0",
        platform_system: "Linux",
        platform_version: "0",
        python_full_version: python,
        python_version: python,
        sys_platform,
    })
    .unwrap();
    ResolverMarkerEnvironment::from(env)
}

fn marker(s: &str) -> MarkerTree {
    s.parse().unwrap()
}

fn version(major: u64, minor: u64, micro: u64) -> Version {
    Version { major, minor, micro }
}

fn at_least(major: u64, minor: u64, micro: u64) -> RequiresPythonRange {
    RequiresPythonRange {
        lower: VersionBound::Included(version(major, minor, micro)),
        upper: VersionBound::Unbounded,
    }
}

#[test]
fn universal_unseeded_single_branch() {
    let env = ResolverEnvironment::universal(vec![]);
    let init = ForkState::new(ResolverEnvironment::universal(vec![]));
    let branches = env.forked_states(init);
    assert_eq!(branches.len(), 1);
    assert!(branches[0].env().try_markers().is_none());
    assert!(env.included(&marker("sys_platform == 'linux'")));
    assert!(env.included(&MarkerTree::TRUE));
    assert!(!env.included(&MarkerTree::FALSE));
}

#[test]
fn specific_single_branch() {
    let env = ResolverEnvironment::specific(descriptor("3.11", "linux"));
    let init = ForkState::new(ResolverEnvironment::specific(descriptor("3.11", "linux")));
    let branches = env.forked_states(init);
    assert_eq!(branches.len(), 1);
    assert!(branches[0].env().try_markers().is_none());
    assert!(branches[0].env().marker_environment().is_some());
}

#[test]
fn forked_states_reverses_seed_order() {
    let linux = marker("sys_platform == 'linux'");
    let darwin = marker("sys_platform == 'darwin'");
    let win = marker("sys_platform == 'win32'");
    let env = ResolverEnvironment::universal(vec![linux, darwin, win]);
    let init = ForkState::new(ResolverEnvironment::universal(vec![linux, darwin, win]));
    let branches = env.forked_states(init);
    assert_eq!(branches.len(), 3);
    assert!(branches[0].env().in_fork(&win));
    assert!(!branches[0].env().in_fork(&linux));
    assert!(branches[1].env().in_fork(&darwin));
    assert!(!branches[1].env().in_fork(&win));
    assert!(branches[2].env().in_fork(&linux));
    assert!(!branches[2].env().in_fork(&win));
}

#[test]
fn two_seed_split_in_fork() {
    let linux = marker("sys_platform == 'linux'");
    let darwin = marker("sys_platform == 'darwin'");
    let env = ResolverEnvironment::universal(vec![linux, darwin]);
    let init = ForkState::new(ResolverEnvironment::universal(vec![linux, darwin]));
    let branches = env.forked_states(init);
    assert_eq!(branches.len(), 2);
    // The darwin seed was listed last, so its branch comes first.
    assert!(!branches[0].env().in_fork(&linux));
    assert!(branches[1].env().in_fork(&linux));
}

#[test]
fn forked_branches_pairwise_disjoint() {
    let linux = marker("sys_platform == 'linux'");
    let darwin = marker("sys_platform == 'darwin'");
    let win = marker("sys_platform == 'win32'");
    let env = ResolverEnvironment::universal(vec![linux, darwin, win]);
    let init = ForkState::new(ResolverEnvironment::universal(vec![linux, darwin, win]));
    let branches = env.forked_states(init);
    for i in 0..branches.len() {
        for j in 0..branches.len() {
            let disjoint = branches[i].env().markers().is_disjoint(branches[j].env().markers());
            assert_eq!(disjoint, i != j);
        }
    }
}

#[test]
fn forked_branches_cover_parent() {
    let linux = marker("sys_platform == 'linux'");
    let darwin = marker("sys_platform == 'darwin'");
    let env = ResolverEnvironment::universal(vec![linux, darwin]);
    let init = ForkState::new(ResolverEnvironment::universal(vec![linux, darwin]));
    let branches = env.forked_states(init);
    // A concrete linux environment lies in exactly one branch.
    let linux_env = descriptor("3.11", "linux");
    let hits = branches
        .iter()
        .filter(|b| b.env().markers().evaluate(&linux_env, &[]))
        .count();
    assert_eq!(hits, 1);
}

#[test]
fn narrowing_never_widens() {
    let linux = marker("sys_platform == 'linux'");
    let darwin = marker("sys_platform == 'darwin'");
    let env = ResolverEnvironment::universal(vec![]);
    let narrowed = env.narrow_markers(&linux);
    assert!(narrowed.included(&linux));
    assert!(!narrowed.included(&darwin));
    assert!(env.included(&darwin));
    // Whatever the narrowed branch includes, the parent includes too.
    for m in [linux, darwin, marker("os_name == 'posix'")] {
        if narrowed.included(&m) {
            assert!(env.included(&m));
        }
    }
}

#[test]
fn narrowing_is_noop_on_specific() {
    let linux = marker("sys_platform == 'linux'");
    let darwin = marker("sys_platform == 'darwin'");
    let env = ResolverEnvironment::specific(descriptor("3.11", "linux"));
    let narrowed = env.narrow_markers(&darwin);
    for m in [linux, darwin, MarkerTree::TRUE, MarkerTree::FALSE] {
        assert_eq!(env.included(&m), narrowed.included(&m));
        assert_eq!(env.in_fork(&m), narrowed.in_fork(&m));
    }
    assert!(narrowed.marker_environment().is_some());
    assert!(narrowed.try_markers().is_none());
    assert_eq!(env.display(), narrowed.display());
}

#[test]
fn included_matches_descriptor_evaluation() {
    let d = descriptor("3.11", "linux");
    let env = ResolverEnvironment::specific(descriptor("3.11", "linux"));
    for text in [
        "sys_platform == 'linux'",
        "sys_platform == 'darwin'",
        "python_full_version >= '3.10'",
        "python_full_version < '3.10'",
        "os_name == 'posix' and sys_platform == 'linux'",
    ] {
        let m = marker(text);
        assert_eq!(env.included(&m), m.evaluate(&d, &[]));
    }
}

#[test]
fn included_matches_non_disjointness() {
    let linux = marker("sys_platform == 'linux'");
    let env = ResolverEnvironment::universal(vec![]).narrow_markers(&linux);
    for text in [
        "sys_platform == 'linux'",
        "sys_platform == 'darwin'",
        "os_name == 'posix'",
        "python_full_version >= '3.10'",
    ] {
        let m = marker(text);
        assert_eq!(env.included(&m), !env.markers().is_disjoint(m));
        assert_eq!(env.included(&m), env.in_fork(&m));
    }
}

#[test]
fn pinned_environment_queries() {
    let env = ResolverEnvironment::specific(descriptor("3.11", "linux"));
    assert!(env.marker_environment().is_some());
    assert!(env.try_markers().is_none());
    // A pinned environment is never split further: a partition boundary is
    // always inside it, even one its descriptor does not satisfy.
    let darwin = marker("sys_platform == 'darwin'");
    assert!(env.in_fork(&darwin));
    assert!(!env.included(&darwin));
    let requirement = PythonRequirement { target: at_least(3, 8, 0) };
    // A pinned environment's marker expression is "always true": it implies
    // no version constraint, so the caller derives no range and nothing is
    // narrowed.
    assert!(env.narrow_python_requirement(&requirement, None).is_none());
}

#[test]
fn narrow_python_requirement_narrows() {
    let env = ResolverEnvironment::universal(vec![]);
    let requirement = PythonRequirement { target: at_least(3, 8, 0) };
    let window = RequiresPythonRange {
        lower: VersionBound::Included(version(3, 11, 0)),
        upper: VersionBound::Excluded(version(3, 12, 0)),
    };
    let narrowed = env.narrow_python_requirement(&requirement, Some(window)).unwrap();
    assert_eq!(narrowed.target.lower, VersionBound::Included(version(3, 11, 0)));
    assert_eq!(narrowed.target.upper, VersionBound::Excluded(version(3, 12, 0)));
}

#[test]
fn narrow_python_requirement_empty_window() {
    let env = ResolverEnvironment::universal(vec![]);
    let requirement = PythonRequirement { target: at_least(3, 9, 0) };
    let window = RequiresPythonRange {
        lower: VersionBound::Unbounded,
        upper: VersionBound::Excluded(version(3, 9, 0)),
    };
    assert!(env.narrow_python_requirement(&requirement, Some(window)).is_none());
    assert!(env.narrow_python_requirement(&requirement, None).is_none());
}

#[test]
fn range_intersection_boundaries() {
    let req = PythonRequirement {
        target: RequiresPythonRange {
            lower: VersionBound::Excluded(version(3, 8, 0)),
            upper: VersionBound::Unbounded,
        },
    };
    // Between 3.8.0 excluded and 3.8.1 excluded no version remains.
    let tight = RequiresPythonRange {
        lower: VersionBound::Unbounded,
        upper: VersionBound::Excluded(version(3, 8, 1)),
    };
    assert!(req.narrow(&tight).is_none());
    // Between 3.8.0 excluded and 3.8.2 excluded exactly 3.8.1 remains.
    let wider = RequiresPythonRange {
        lower: VersionBound::Unbounded,
        upper: VersionBound::Excluded(version(3, 8, 2)),
    };
    let narrowed = req.narrow(&wider).unwrap();
    assert_eq!(narrowed.target.lower, VersionBound::Excluded(version(3, 8, 0)));
    assert_eq!(narrowed.target.upper, VersionBound::Excluded(version(3, 8, 2)));
}

#[test]
fn python_install_invalid_request() {
    // A request for a language-version window that admits no version at all
    // must come back absent, also when combined with a feasible requirement.
    let env = ResolverEnvironment::universal(vec![]);
    let requirement = PythonRequirement { target: at_least(3, 8, 0) };
    let impossible = RequiresPythonRange {
        lower: VersionBound::Included(version(3, 12, 0)),
        upper: VersionBound::Excluded(version(3, 8, 0)),
    };
    assert!(env.narrow_python_requirement(&requirement, Some(impossible)).is_none());
    let feasible = PythonRequirement {
        target: RequiresPythonRange {
            lower: VersionBound::Included(version(3, 12, 0)),
            upper: VersionBound::Unbounded,
        },
    };
    assert!(env.narrow_python_requirement(&feasible, Some(impossible)).is_none());
}

#[test]
fn display_rendering() {
    let specific = ResolverEnvironment::specific(descriptor("3.11", "linux"));
    assert_eq!(specific.display(), "Marker Environment");
    assert!(specific.end_user_fork_display().is_none());

    let universal = ResolverEnvironment::universal(vec![]);
    assert_eq!(universal.display(), "All Marker Environments");
    assert!(universal.end_user_fork_display().is_none());

    let linux = marker("sys_platform == 'linux'");
    let narrowed = universal.narrow_markers(&linux);
    let mut expected_tree = MarkerTree::TRUE;
    expected_tree.and(linux);
    assert_eq!(narrowed.display(), format!("Split `{expected_tree:?}`"));
    assert_eq!(
        narrowed.end_user_fork_display().unwrap(),
        format!("split ({expected_tree:?})")
    );
}

#[test]
fn clone_answers_as_original() {
    let linux = marker("sys_platform == 'linux'");
    let darwin = marker("sys_platform == 'darwin'");
    let pinned = ResolverEnvironment::specific(descriptor("3.11", "linux"));
    let pinned_copy = pinned.clone_env();
    for m in [linux, darwin, MarkerTree::TRUE] {
        assert_eq!(pinned.included(&m), pinned_copy.included(&m));
    }
    assert_eq!(pinned.display(), pinned_copy.display());
    assert!(pinned_copy.marker_environment().is_some());

    let open = ResolverEnvironment::universal(vec![linux]).narrow_markers(&darwin);
    let open_copy = open.clone_env();
    assert_eq!(open.markers(), open_copy.markers());
    assert_eq!(open.try_markers(), open_copy.try_markers());
    assert_eq!(open.display(), open_copy.display());
}

#[test]
fn narrowing_by_always_true_keeps_expression() {
    let linux = marker("sys_platform == 'linux'");
    let branch = ResolverEnvironment::universal(vec![]).narrow_markers(&linux);
    let renarrowed = branch.narrow_markers(&MarkerTree::TRUE);
    assert_eq!(branch.markers(), renarrowed.markers());
    assert_eq!(branch.try_markers(), renarrowed.try_markers());
    assert_eq!(branch.display(), renarrowed.display());
}

#[test]
fn evaluation_is_not_the_set_model() {
    // A descriptor built from arbitrary strings may combine fields the
    // marker algebra's exclusion rules forbid; both markers below evaluate
    // to true at such a descriptor even though the algebra calls them
    // disjoint. This is why a pinned environment's `included` is specified
    // as evaluation at its descriptor, not through expression denotations.
    let conflicted = MarkerEnvironment::try_from(MarkerEnvironmentBuilder {
        implementation_name: "cpython",
        implementation_version: "3.11",
        os_name: "nt",
        platform_machine: "x86_64",
        platform_python_implementation: "CPython",
        platform_release: "6.1.0",
        platform_system: "Linux",
        platform_version: "0",
        python_full_version: "3.11",
        python_version: "3.11",
        sys_platform: "linux",
    })
    .unwrap();
    let env = ResolverEnvironment::specific(ResolverMarkerEnvironment::from(conflicted));
    let m1 = marker("os_name == 'nt'");
    let m2 = marker("sys_platform == 'linux'");
    assert!(m1.is_disjoint(m2));
    assert!(env.included(&m1));
    assert!(env.included(&m2));
}

#[test]
fn disjointness_verdict_can_miss_empty_sets() {
    // The engine's incompatible-platform collapse fires only at
    // conjunctions of two platform markers. Narrowing an open branch by a
    // version marker last leaves a diagram for an impossible platform
    // combination that is not the false node: the branch then still answers
    // true for the version marker while answering false for a platform
    // marker it carries. `included`'s false answers are therefore specified
    // as the engine's verdict, not as emptiness of the point sets.
    let nt = marker("os_name == 'nt'");
    let mixed = marker(
        "sys_platform == 'linux' and python_full_version < '3' \
         or sys_platform == 'win32' and python_full_version >= '3'",
    );
    let old_python = marker("python_full_version < '3'");
    let branch = ResolverEnvironment::universal(vec![])
        .narrow_markers(&nt)
        .narrow_markers(&mixed)
        .narrow_markers(&old_python);
    assert!(branch.try_markers().is_some());
    assert!(!branch.included(&nt));
    assert!(branch.included(&old_python));
}

#[test]
fn try_markers_reports_real_narrowing_only() {
    let universal = ResolverEnvironment::universal(vec![]);
    assert!(universal.try_markers().is_none());
    let still_true = universal.narrow_markers(&MarkerTree::TRUE);
    assert!(still_true.try_markers().is_none());
    let linux = marker("sys_platform == 'linux'");
    let narrowed = universal.narrow_markers(&linux);
    let got = narrowed.try_markers().unwrap();
    assert_eq!(got, narrowed.markers());
    assert!(!got.is_true());
}
