use mirua::pom::error::{FetchCause, ResolveError};
use mirua::pom::resolver::{Reply, Resolver};
use mirua::pom::structure::{
    Dependencies, Dependency, Exclusion, Exclusions, Parent, Project,
};
use mirua::pom::{build_maven_pom_url, get_dependencies, Served};

fn declare(group: &str, artifact: &str, version: &str) -> Dependency {
    let mut d = Dependency::default();
    d.group_id = group.to_string();
    d.artifact_id = artifact.to_string();
    d.version = Some(version.to_string());
    d
}

fn scoped(mut d: Dependency, scope: &str) -> Dependency {
    d.scope = Some(scope.to_string());
    d
}

fn excluding(mut d: Dependency, group: &str, artifact: &str) -> Dependency {
    let mut list = match d.exclusions.take() {
        Some(x) => x.exclusions,
        None => Vec::new(),
    };
    list.push(Exclusion { group_id: group.to_string(), artifact_id: artifact.to_string() });
    d.exclusions = Some(Exclusions { exclusions: list });
    d
}

fn manifest(group: &str, artifact: &str, version: &str, declared: Vec<Dependency>) -> Project {
    let mut p = Project::default();
    p.group_id = Some(group.to_string());
    p.artifact_id = artifact.to_string();
    p.version = Some(version.to_string());
    if !declared.is_empty() {
        p.dependencies = Some(Dependencies { dependencies: declared });
    }
    p
}

fn serve(project: Project) -> Served {
    let (group, artifact, version) = project.effective().unwrap();
    Served {
        url: build_maven_pom_url(&group, &artifact, &version),
        reply: Reply::Answered { status: 200, body: Ok(project) },
    }
}

fn resolved(group: &str, artifact: &str, version: &str) -> Dependency {
    declare(group, artifact, version)
}

fn sorted(mut list: Vec<Dependency>) -> Vec<Dependency> {
    list.sort_by(|a, b| (&a.group_id, &a.artifact_id).cmp(&(&b.group_id, &b.artifact_id)));
    list
}

#[test]
fn test_scope_and_edge_exclusion_are_left_out() {
    let d1 = declare("g", "d1", "1");
    let d2 = scoped(declare("g", "d2", "1"), "test");
    let d3 = excluding(declare("g", "d3", "1"), "g", "d4");
    let d4 = declare("g", "d4", "1");
    let served = vec![
        serve(manifest("g", "root", "1", vec![d1, d2])),
        serve(manifest("g", "d1", "1", vec![d3])),
        serve(manifest("g", "d2", "1", vec![])),
        serve(manifest("g", "d3", "1", vec![d4])),
        serve(manifest("g", "d4", "1", vec![])),
    ];
    let out = get_dependencies(&build_maven_pom_url("g", "root", "1"), &served, 100).unwrap();
    assert_eq!(
        sorted(out),
        vec![resolved("g", "d1", "1"), resolved("g", "d3", "1"), resolved("g", "root", "1")]
    );
}

#[test]
fn missing_root_manifest_aborts_with_fetch_error() {
    let url = build_maven_pom_url("g", "root", "1");
    let served = vec![Served {
        url: url.clone(),
        reply: Reply::Answered { status: 404, body: Err(String::new()) },
    }];
    assert_eq!(
        get_dependencies(&url, &served, 100),
        Err(ResolveError::FetchError { url: url.clone(), cause: FetchCause::Status(404) })
    );
    assert_eq!(
        get_dependencies(&url, &Vec::new(), 100),
        Err(ResolveError::FetchError { url, cause: FetchCause::Status(404) })
    );
}

#[test]
fn failure_below_the_root_discards_what_was_resolved() {
    let served = vec![serve(manifest("g", "root", "1", vec![declare("g", "gone", "1")]))];
    assert_eq!(
        get_dependencies(&build_maven_pom_url("g", "root", "1"), &served, 100),
        Err(ResolveError::FetchError {
            url: build_maven_pom_url("g", "gone", "1"),
            cause: FetchCause::Status(404)
        })
    );
}

#[test]
fn transport_failure_is_a_fetch_error() {
    let url = build_maven_pom_url("g", "root", "1");
    let served =
        vec![Served { url: url.clone(), reply: Reply::Failed("connection reset".to_string()) }];
    assert_eq!(
        get_dependencies(&url, &served, 100),
        Err(ResolveError::FetchError {
            url,
            cause: FetchCause::Transport("connection reset".to_string())
        })
    );
}

#[test]
fn malformed_manifest_is_a_parse_error() {
    let url = build_maven_pom_url("g", "root", "1");
    let served = vec![Served {
        url: url.clone(),
        reply: Reply::Answered { status: 200, body: Err("unexpected end".to_string()) },
    }];
    assert_eq!(
        get_dependencies(&url, &served, 100),
        Err(ResolveError::ParseError { url, cause: "unexpected end".to_string() })
    );
}

#[test]
fn status_is_judged_before_the_body() {
    let url = build_maven_pom_url("g", "root", "1");
    let served = vec![Served {
        url: url.clone(),
        reply: Reply::Answered { status: 500, body: Ok(manifest("g", "root", "1", vec![])) },
    }];
    assert_eq!(
        get_dependencies(&url, &served, 100),
        Err(ResolveError::FetchError { url, cause: FetchCause::Status(500) })
    );
}

#[test]
fn optional_declarations_are_left_out() {
    let mut opt = declare("g", "opt", "1");
    opt.optional = Some(true);
    let mut not_opt = declare("g", "req", "1");
    not_opt.optional = Some(false);
    let served = vec![
        serve(manifest("g", "root", "1", vec![opt, not_opt])),
        serve(manifest("g", "opt", "1", vec![])),
        serve(manifest("g", "req", "1", vec![])),
    ];
    let out = get_dependencies(&build_maven_pom_url("g", "root", "1"), &served, 100).unwrap();
    assert_eq!(sorted(out), vec![resolved("g", "req", "1"), resolved("g", "root", "1")]);
}

#[test]
fn scopes_other_than_test_are_followed() {
    let served = vec![
        serve(manifest(
            "g",
            "root",
            "1",
            vec![
                scoped(declare("g", "a", "1"), "compile"),
                scoped(declare("g", "b", "1"), "runtime"),
                scoped(declare("g", "c", "1"), "provided"),
                scoped(declare("g", "d", "1"), "Test"),
                scoped(declare("g", "e", "1"), "test"),
            ],
        )),
        serve(manifest("g", "a", "1", vec![])),
        serve(manifest("g", "b", "1", vec![])),
        serve(manifest("g", "c", "1", vec![])),
        serve(manifest("g", "d", "1", vec![])),
    ];
    let out = get_dependencies(&build_maven_pom_url("g", "root", "1"), &served, 100).unwrap();
    assert_eq!(
        sorted(out),
        vec![
            resolved("g", "a", "1"),
            resolved("g", "b", "1"),
            resolved("g", "c", "1"),
            resolved("g", "d", "1"),
            resolved("g", "root", "1")
        ]
    );
}

#[test]
fn output_has_one_entry_per_identity() {
    let served = vec![
        serve(manifest("g", "root", "1", vec![declare("g", "a", "1"), declare("g", "b", "1")])),
        serve(manifest("g", "a", "1", vec![declare("g", "shared", "1")])),
        serve(manifest("g", "b", "1", vec![declare("g", "shared", "2")])),
        serve(manifest("g", "shared", "1", vec![])),
        serve(manifest("g", "shared", "2", vec![])),
    ];
    let out = get_dependencies(&build_maven_pom_url("g", "root", "1"), &served, 100).unwrap();
    assert_eq!(
        sorted(out),
        vec![
            resolved("g", "a", "1"),
            resolved("g", "b", "1"),
            resolved("g", "root", "1"),
            resolved("g", "shared", "1")
        ]
    );
}

#[test]
fn identity_declared_twice_in_one_manifest_keeps_the_later_version() {
    let served = vec![
        serve(manifest("g", "root", "1", vec![declare("g", "x", "1"), declare("g", "x", "2")])),
        serve(manifest("g", "x", "1", vec![])),
        serve(manifest("g", "x", "2", vec![])),
    ];
    let out = get_dependencies(&build_maven_pom_url("g", "root", "1"), &served, 100).unwrap();
    assert_eq!(sorted(out), vec![resolved("g", "root", "1"), resolved("g", "x", "2")]);
}

#[test]
fn exclusion_holds_on_its_own_edge_only() {
    let served = vec![
        serve(manifest(
            "g",
            "root",
            "1",
            vec![excluding(declare("g", "a", "1"), "g", "x"), declare("g", "b", "1")],
        )),
        serve(manifest("g", "a", "1", vec![declare("g", "x", "1")])),
        serve(manifest("g", "b", "1", vec![declare("g", "x", "1")])),
        serve(manifest("g", "x", "1", vec![])),
    ];
    let out = get_dependencies(&build_maven_pom_url("g", "root", "1"), &served, 100).unwrap();
    assert_eq!(
        sorted(out),
        vec![
            resolved("g", "a", "1"),
            resolved("g", "b", "1"),
            resolved("g", "root", "1"),
            resolved("g", "x", "1")
        ]
    );
}

#[test]
fn exclusion_does_not_reach_below_the_manifest_it_leads_to() {
    let served = vec![
        serve(manifest("g", "root", "1", vec![excluding(declare("g", "a", "1"), "g", "x")])),
        serve(manifest("g", "a", "1", vec![declare("g", "b", "1"), declare("g", "x", "1")])),
        serve(manifest("g", "b", "1", vec![declare("g", "x", "1")])),
        serve(manifest("g", "x", "1", vec![])),
    ];
    let out = get_dependencies(&build_maven_pom_url("g", "root", "1"), &served, 100).unwrap();
    assert_eq!(
        sorted(out),
        vec![
            resolved("g", "a", "1"),
            resolved("g", "b", "1"),
            resolved("g", "root", "1"),
            resolved("g", "x", "1")
        ]
    );
}

#[test]
fn parent_is_resolved_and_registered() {
    let mut child = Project::default();
    child.artifact_id = "child".to_string();
    child.parent = Some(Parent {
        artifact_id: "base".to_string(),
        group_id: "org.p".to_string(),
        version: Some("2.0".to_string()),
    });
    let served = vec![
        Served {
            url: "start".to_string(),
            reply: Reply::Answered { status: 200, body: Ok(child) },
        },
        serve(manifest("org.p", "base", "2.0", vec![declare("g", "lib", "3")])),
        serve(manifest("g", "lib", "3", vec![])),
    ];
    let out = get_dependencies("start", &served, 100).unwrap();
    assert_eq!(
        sorted(out),
        vec![
            resolved("g", "lib", "3"),
            resolved("org.p", "base", "2.0"),
            resolved("org.p", "child", "2.0")
        ]
    );
}

#[test]
fn parent_comes_before_the_manifests_own_dependencies() {
    let mut child = manifest("g", "child", "1", vec![declare("g", "lib", "9")]);
    child.parent = Some(Parent {
        artifact_id: "base".to_string(),
        group_id: "g".to_string(),
        version: Some("1".to_string()),
    });
    let served = vec![
        serve(child),
        serve(manifest("g", "base", "1", vec![declare("g", "lib", "3")])),
        serve(manifest("g", "lib", "3", vec![])),
        serve(manifest("g", "lib", "9", vec![])),
    ];
    let out = get_dependencies(&build_maven_pom_url("g", "child", "1"), &served, 100).unwrap();
    assert_eq!(
        sorted(out),
        vec![resolved("g", "base", "1"), resolved("g", "child", "1"), resolved("g", "lib", "3")]
    );
}

#[test]
fn parent_ignores_the_exclusions_of_the_edge() {
    let mut a = manifest("g", "a", "1", vec![]);
    a.parent = Some(Parent {
        artifact_id: "base".to_string(),
        group_id: "g".to_string(),
        version: Some("1".to_string()),
    });
    let served = vec![
        serve(manifest("g", "root", "1", vec![excluding(declare("g", "a", "1"), "g", "x")])),
        serve(a),
        serve(manifest("g", "base", "1", vec![declare("g", "x", "1")])),
        serve(manifest("g", "x", "1", vec![])),
    ];
    let out = get_dependencies(&build_maven_pom_url("g", "root", "1"), &served, 100).unwrap();
    assert_eq!(
        sorted(out),
        vec![
            resolved("g", "a", "1"),
            resolved("g", "base", "1"),
            resolved("g", "root", "1"),
            resolved("g", "x", "1")
        ]
    );
}

#[test]
fn followed_declaration_without_version_aborts() {
    let mut bare = Dependency::default();
    bare.group_id = "g".to_string();
    bare.artifact_id = "bare".to_string();
    let mut later = Dependency::default();
    later.group_id = "g".to_string();
    later.artifact_id = "later".to_string();
    let served =
        vec![serve(manifest("g", "root", "1", vec![declare("g", "a", "1"), bare, later]))];
    assert_eq!(
        get_dependencies(&build_maven_pom_url("g", "root", "1"), &served, 100),
        Err(ResolveError::MissingVersion {
            group_id: "g".to_string(),
            artifact_id: "bare".to_string()
        })
    );
}

#[test]
fn dropped_declaration_without_version_is_harmless() {
    let mut bare = Dependency::default();
    bare.group_id = "g".to_string();
    bare.artifact_id = "bare".to_string();
    bare.scope = Some("test".to_string());
    let served = vec![serve(manifest("g", "root", "1", vec![bare]))];
    let out = get_dependencies(&build_maven_pom_url("g", "root", "1"), &served, 100).unwrap();
    assert_eq!(out, vec![resolved("g", "root", "1")]);
}

#[test]
fn parent_without_version_aborts() {
    let mut root = manifest("g", "root", "1", vec![]);
    root.parent =
        Some(Parent { artifact_id: "base".to_string(), group_id: "g".to_string(), version: None });
    let served = vec![serve(root)];
    assert_eq!(
        get_dependencies(&build_maven_pom_url("g", "root", "1"), &served, 100),
        Err(ResolveError::MissingVersion {
            group_id: "g".to_string(),
            artifact_id: "base".to_string()
        })
    );
}

#[test]
fn manifest_without_group_aborts() {
    let mut root = Project::default();
    root.artifact_id = "root".to_string();
    root.version = Some("1".to_string());
    let served = vec![Served {
        url: "start".to_string(),
        reply: Reply::Answered { status: 200, body: Ok(root) },
    }];
    assert_eq!(
        get_dependencies("start", &served, 100),
        Err(ResolveError::MissingGroup { artifact_id: "root".to_string() })
    );
}

#[test]
fn fetch_limit_ends_an_endless_parent_chain() {
    let mut a = manifest("g", "a", "1", vec![]);
    a.parent = Some(Parent {
        artifact_id: "b".to_string(),
        group_id: "g".to_string(),
        version: Some("1".to_string()),
    });
    let mut b = manifest("g", "b", "1", vec![]);
    b.parent = Some(Parent {
        artifact_id: "a".to_string(),
        group_id: "g".to_string(),
        version: Some("1".to_string()),
    });
    let served = vec![serve(a), serve(b)];
    assert_eq!(
        get_dependencies(&build_maven_pom_url("g", "a", "1"), &served, 50),
        Err(ResolveError::Unfinished)
    );
}

#[test]
fn fetch_limit_counts_manifests() {
    let served = vec![
        serve(manifest("g", "root", "1", vec![declare("g", "a", "1")])),
        serve(manifest("g", "a", "1", vec![])),
    ];
    let url = build_maven_pom_url("g", "root", "1");
    assert_eq!(get_dependencies(&url, &served, 0), Err(ResolveError::Unfinished));
    assert_eq!(get_dependencies(&url, &served, 1), Err(ResolveError::Unfinished));
    assert_eq!(
        sorted(get_dependencies(&url, &served, 2).unwrap()),
        vec![resolved("g", "a", "1"), resolved("g", "root", "1")]
    );
}

#[test]
fn first_entry_of_an_address_is_the_one_served() {
    let url = build_maven_pom_url("g", "root", "1");
    let served = vec![
        serve(manifest("g", "root", "1", vec![])),
        Served { url: url.clone(), reply: Reply::Failed("later".to_string()) },
    ];
    assert_eq!(get_dependencies(&url, &served, 5), Ok(vec![resolved("g", "root", "1")]));
}

#[test]
fn resolver_names_the_addresses_in_depth_first_order() {
    let root = manifest("g", "root", "1", vec![declare("g", "a", "1"), declare("g", "b", "1")]);
    let a = manifest("g", "a", "1", vec![declare("g", "c", "1")]);
    let start = build_maven_pom_url("g", "root", "1");
    let mut resolver = Resolver::new(&start);
    assert!(!resolver.is_done());
    assert_eq!(resolver.next_url(), Some(start));
    resolver = resolver.step(&Reply::Answered { status: 200, body: Ok(root) }).unwrap();
    assert_eq!(resolver.next_url(), Some(build_maven_pom_url("g", "a", "1")));
    resolver = resolver.step(&Reply::Answered { status: 200, body: Ok(a) }).unwrap();
    assert_eq!(resolver.next_url(), Some(build_maven_pom_url("g", "c", "1")));
    resolver = resolver
        .step(&Reply::Answered { status: 200, body: Ok(manifest("g", "c", "1", vec![])) })
        .unwrap();
    assert_eq!(resolver.next_url(), Some(build_maven_pom_url("g", "b", "1")));
    resolver = resolver
        .step(&Reply::Answered { status: 200, body: Ok(manifest("g", "b", "1", vec![])) })
        .unwrap();
    assert_eq!(resolver.next_url(), None);
    assert!(resolver.is_done());
    let out = resolver.finish().unwrap();
    assert_eq!(
        out,
        vec![
            resolved("g", "root", "1"),
            resolved("g", "a", "1"),
            resolved("g", "c", "1"),
            resolved("g", "b", "1")
        ]
    );
}

#[test]
fn unfinished_run_gives_no_result() {
    let resolver = Resolver::new("start");
    assert_eq!(resolver.finish(), None);
}

#[test]
fn step_with_nothing_pending_changes_nothing() {
    let mut resolver = Resolver::new("start");
    resolver = resolver
        .step(&Reply::Answered { status: 200, body: Ok(manifest("g", "root", "1", vec![])) })
        .unwrap();
    assert!(resolver.is_done());
    resolver = resolver.step(&Reply::Failed("unused".to_string())).unwrap();
    assert_eq!(resolver.finish(), Some(vec![resolved("g", "root", "1")]));
}

#[test]
fn registered_identity_is_the_manifests_own_not_the_declared_one() {
    let served = vec![
        serve(manifest("g", "root", "1", vec![declare("g", "alias", "1")])),
        Served {
            url: build_maven_pom_url("g", "alias", "1"),
            reply: Reply::Answered { status: 200, body: Ok(manifest("h", "real", "7", vec![])) },
        },
    ];
    let out = get_dependencies(&build_maven_pom_url("g", "root", "1"), &served, 100).unwrap();
    assert_eq!(sorted(out), vec![resolved("g", "root", "1"), resolved("h", "real", "7")]);
}

#[test]
fn order_of_edges_decides_whether_an_excluded_identity_appears() {
    let through_a = || manifest("g", "a", "1", vec![excluding(declare("g", "m", "1"), "g", "x")]);
    let through_b = || manifest("g", "b", "1", vec![declare("g", "m", "1")]);
    let rest = || {
        vec![
            serve(through_a()),
            serve(through_b()),
            serve(manifest("g", "m", "1", vec![declare("g", "x", "1")])),
            serve(manifest("g", "x", "1", vec![])),
        ]
    };
    let start = build_maven_pom_url("g", "root", "1");

    let mut excluded_first =
        vec![serve(manifest("g", "root", "1", vec![declare("g", "a", "1"), declare("g", "b", "1")]))];
    excluded_first.extend(rest());
    assert_eq!(
        sorted(get_dependencies(&start, &excluded_first, 100).unwrap()),
        vec![
            resolved("g", "a", "1"),
            resolved("g", "b", "1"),
            resolved("g", "m", "1"),
            resolved("g", "root", "1")
        ]
    );

    let mut excluded_last =
        vec![serve(manifest("g", "root", "1", vec![declare("g", "b", "1"), declare("g", "a", "1")]))];
    excluded_last.extend(rest());
    assert_eq!(
        sorted(get_dependencies(&start, &excluded_last, 100).unwrap()),
        vec![
            resolved("g", "a", "1"),
            resolved("g", "b", "1"),
            resolved("g", "m", "1"),
            resolved("g", "root", "1"),
            resolved("g", "x", "1")
        ]
    );
}

#[test]
fn version_conflict_goes_to_the_branch_reached_first() {
    let served = |first: &str, second: &str| {
        vec![
            serve(manifest(
                "g",
                "root",
                "1",
                vec![declare("g", first, "1"), declare("g", second, "1")],
            )),
            serve(manifest("g", "a", "1", vec![declare("g", "lib", "1.0")])),
            serve(manifest("g", "b", "1", vec![declare("g", "lib", "2.0")])),
            serve(manifest("g", "lib", "1.0", vec![])),
            serve(manifest("g", "lib", "2.0", vec![])),
        ]
    };
    let start = build_maven_pom_url("g", "root", "1");
    let out = get_dependencies(&start, &served("a", "b"), 100).unwrap();
    assert!(out.contains(&resolved("g", "lib", "1.0")));
    assert!(!out.contains(&resolved("g", "lib", "2.0")));
    let out = get_dependencies(&start, &served("b", "a"), 100).unwrap();
    assert!(out.contains(&resolved("g", "lib", "2.0")));
    assert!(!out.contains(&resolved("g", "lib", "1.0")));
}

#[test]
fn result_is_the_same_for_every_sufficient_limit() {
    let served = vec![
        serve(manifest("g", "root", "1", vec![declare("g", "a", "1"), declare("g", "b", "1")])),
        serve(manifest("g", "a", "1", vec![declare("g", "c", "1")])),
        serve(manifest("g", "b", "1", vec![])),
        serve(manifest("g", "c", "1", vec![])),
    ];
    let url = build_maven_pom_url("g", "root", "1");
    let least = get_dependencies(&url, &served, 4);
    assert_eq!(least.as_ref().map(|list| list.len()), Ok(4));
    assert_eq!(get_dependencies(&url, &served, 3), Err(ResolveError::Unfinished));
    assert_eq!(get_dependencies(&url, &served, 5), least);
    assert_eq!(get_dependencies(&url, &served, usize::MAX), least);
}

#[test]
fn errors_other_than_the_limit_do_not_depend_on_it() {
    let served = vec![serve(manifest("g", "root", "1", vec![declare("g", "gone", "1")]))];
    let url = build_maven_pom_url("g", "root", "1");
    let expected = Err(ResolveError::FetchError {
        url: build_maven_pom_url("g", "gone", "1"),
        cause: FetchCause::Status(404),
    });
    assert_eq!(get_dependencies(&url, &served, 1), Err(ResolveError::Unfinished));
    assert_eq!(get_dependencies(&url, &served, 2), expected);
    assert_eq!(get_dependencies(&url, &served, 200), expected);
}
