use pi::bin_database::{BinDatabase, BinRepo};
use pi::graph::{closure_of, dependency_graph, install_closure, GraphError};
use pi::{Application, Configuration, DepKind, Dependency, Metadata, PkgError, RepoMeta};

fn app(name: &str, version: &str, run: Option<Vec<&str>>) -> Application {
    let mut metadata = Metadata::default();
    metadata.name = name.to_string();
    metadata.version = version.to_string();
    metadata.release = 1;
    let dependencies = run.map(|r| {
        let mut d = Dependency::new();
        d.run_dependencies = Some(r.iter().map(|s| s.to_string()).collect());
        d
    });
    Application { metadata, security: None, dependencies, files: vec![] }
}

fn repo_meta(name: &str, address: &str) -> RepoMeta {
    RepoMeta {
        name: name.to_string(),
        static_address: address.to_string(),
        update_address: format!("{}version", address),
    }
}

fn single_repo(apps: Vec<Application>) -> (BinDatabase, Configuration) {
    let mut db = BinDatabase::new();
    db.repos.push(("core".to_string(), BinRepo { applications: apps, date: 10 }));
    let config = Configuration { repos: vec![repo_meta("core", "http://localhost:3690/core/")] };
    (db, config)
}

fn names(v: &[String]) -> Vec<String> {
    let mut v = v.to_vec();
    v.sort();
    v
}

#[test]
fn install_set_holds_package_and_run_dependency_once() {
    let apps = vec![app("A", "1.0.0", Some(vec!["B"])), app("B", "1.0.0", None)];
    let (db, config) = single_repo(apps.clone());
    let g = dependency_graph(&apps, DepKind::Run);
    let set = db.resolve_install_set(&g, &config, &vec!["A".to_string()]).unwrap();
    let got: Vec<String> = set.iter().map(|t| t.package.metadata.name.clone()).collect();
    assert_eq!(names(&got), vec!["A".to_string(), "B".to_string()]);
    assert_eq!(set.len(), 2);
}

#[test]
fn unknown_package_is_not_found_before_anything_else() {
    let apps = vec![app("A", "1.0.0", None)];
    let (db, config) = single_repo(apps.clone());
    let g = dependency_graph(&apps, DepKind::Run);
    match db.resolve_install_set(&g, &config, &vec!["Z".to_string()]) {
        Err(PkgError::NotFound(l)) => assert_eq!(l, vec!["Z".to_string()]),
        other => panic!("unexpected {:?}", other),
    }
}

#[test]
fn all_unknown_names_are_reported_together() {
    let apps = vec![app("A", "1.0.0", None)];
    let (db, config) = single_repo(apps.clone());
    let g = dependency_graph(&apps, DepKind::Run);
    let req = vec!["X".to_string(), "A".to_string(), "Y".to_string()];
    match db.resolve_install_set(&g, &config, &req) {
        Err(PkgError::NotFound(l)) => assert_eq!(l, vec!["X".to_string(), "Y".to_string()]),
        other => panic!("unexpected {:?}", other),
    }
}

#[test]
fn dependency_held_nowhere_is_missing_from_database() {
    let apps = vec![app("A", "1.0.0", Some(vec!["C"]))];
    let (db, config) = single_repo(apps.clone());
    let g = dependency_graph(&apps, DepKind::Run);
    match db.resolve_install_set(&g, &config, &vec!["A".to_string()]) {
        Err(PkgError::MissingFromDatabase(l)) => assert_eq!(l, vec!["C".to_string()]),
        other => panic!("unexpected {:?}", other),
    }
}

#[test]
fn cycle_is_reported_not_truncated() {
    let apps = vec![
        app("A", "1.0.0", Some(vec!["B"])),
        app("B", "1.0.0", Some(vec!["C"])),
        app("C", "1.0.0", Some(vec!["A"])),
    ];
    let (db, config) = single_repo(apps.clone());
    let g = dependency_graph(&apps, DepKind::Run);
    match db.resolve_install_set(&g, &config, &vec!["A".to_string()]) {
        Err(PkgError::CycleDetected(n)) => assert_eq!(n, "A"),
        other => panic!("unexpected {:?}", other),
    }
    assert_eq!(closure_of(&g, &"B".to_string()), Err(GraphError::CycleDetected));
}

#[test]
fn closure_is_exactly_the_reachable_names() {
    let apps = vec![
        app("A", "1.0.0", Some(vec!["B", "C"])),
        app("B", "1.0.0", Some(vec!["D"])),
        app("C", "1.0.0", Some(vec!["D"])),
        app("D", "1.0.0", None),
        app("E", "1.0.0", Some(vec!["A"])),
    ];
    let g = dependency_graph(&apps, DepKind::Run);
    let c = closure_of(&g, &"A".to_string()).unwrap();
    assert_eq!(names(&c), vec!["A", "B", "C", "D"].iter().map(|s| s.to_string()).collect::<Vec<_>>());
    let u = install_closure(&g, &vec!["B".to_string(), "C".to_string()]).unwrap();
    assert_eq!(names(&u), vec!["B", "C", "D"].iter().map(|s| s.to_string()).collect::<Vec<_>>());
    assert_eq!(closure_of(&g, &"Q".to_string()), Err(GraphError::NoSuchNode));
}

#[test]
fn packages_without_dependencies_are_isolated_nodes() {
    let apps = vec![app("A", "1.0.0", None), app("B", "2.0.0", None)];
    for kind in [DepKind::Build, DepKind::Optional, DepKind::Run, DepKind::Test] {
        let g = dependency_graph(&apps, kind);
        assert_eq!(closure_of(&g, &"A".to_string()).unwrap(), vec!["A".to_string()]);
        assert_eq!(closure_of(&g, &"B".to_string()).unwrap(), vec!["B".to_string()]);
    }
}

#[test]
fn empty_kind_list_still_registers_the_package() {
    let mut a = app("A", "1.0.0", Some(vec!["B"]));
    a.dependencies.as_mut().unwrap().build_dependencies = Some(vec![]);
    let apps = vec![a, app("B", "1.0.0", None)];
    let g = dependency_graph(&apps, DepKind::Test);
    assert_eq!(closure_of(&g, &"A".to_string()).unwrap(), vec!["A".to_string()]);
    let g = dependency_graph(&apps, DepKind::Build);
    assert_eq!(closure_of(&g, &"A".to_string()).unwrap(), vec!["A".to_string()]);
}

#[test]
fn first_listed_repository_wins() {
    let mut db = BinDatabase::new();
    db.repos.push(("extra".to_string(), BinRepo { applications: vec![app("P", "2.0.0", None)], date: 1 }));
    db.repos.push(("core".to_string(), BinRepo { applications: vec![app("P", "1.0.0", None)], date: 1 }));
    let config = Configuration {
        repos: vec![
            repo_meta("core", "http://localhost:3690/core/"),
            repo_meta("extra", "http://localhost:3690/extra/"),
        ],
    };
    let t = db.find(&config, "P").unwrap().unwrap();
    assert_eq!(t.repo, "core");
    assert_eq!(t.package.metadata.version, "1.0.0");
    assert_eq!(t.package_address, "http://localhost:3690/core/P-1.0.0-1-x86_64.app");
}

#[test]
fn unconfigured_repository_is_a_configuration_error() {
    let mut db = BinDatabase::new();
    db.repos.push(("ghost".to_string(), BinRepo { applications: vec![app("P", "1.0.0", None)], date: 1 }));
    let config = Configuration::gen();
    match db.find(&config, "P") {
        Err(PkgError::Config(n)) => assert_eq!(n, "ghost"),
        other => panic!("unexpected {:?}", other),
    }
}

#[test]
fn unparsable_address_is_a_configuration_error() {
    let (db, _) = single_repo(vec![app("P", "1.0.0", None)]);
    let config = Configuration { repos: vec![repo_meta("core", "not a url")] };
    match db.find(&config, "P") {
        Err(PkgError::Config(n)) => assert_eq!(n, "core"),
        other => panic!("unexpected {:?}", other),
    }
    assert!(db.find(&Configuration::gen(), "Q").unwrap().is_none());
}

#[test]
fn repository_add_keeps_first_and_moves_date_forward() {
    let mut r = BinRepo::new(100);
    assert!(r.add(app("A", "1.0.0", None), 150));
    assert!(!r.add(app("A", "2.0.0", None), 120));
    assert_eq!(r.applications.len(), 1);
    assert_eq!(r.applications[0].metadata.version, "1.0.0");
    assert_eq!(r.date, 150);
    let removed = r.remove("A", 90).unwrap();
    assert_eq!(removed.metadata.name, "A");
    assert!(r.applications.is_empty());
    assert_eq!(r.date, 150);
    assert!(r.remove("A", 200).is_none());
    assert_eq!(r.date, 200);
}

#[test]
fn resolve_targets_reports_missing_names() {
    let (db, config) = single_repo(vec![app("A", "1.0.0", None)]);
    match db.resolve_targets(&config, &vec!["A".to_string(), "M".to_string()]) {
        Err(PkgError::MissingFromDatabase(l)) => assert_eq!(l, vec!["M".to_string()]),
        other => panic!("unexpected {:?}", other),
    }
    let ts = db.resolve_targets(&config, &vec!["A".to_string()]).unwrap();
    assert_eq!(ts[0].package_address, "http://localhost:3690/core/A-1.0.0-1-x86_64.app");
}

#[test]
fn install_set_keeps_first_seen_order() {
    let apps = vec![
        app("A", "1.0.0", Some(vec!["B"])),
        app("B", "1.0.0", None),
        app("C", "1.0.0", Some(vec!["B", "D"])),
        app("D", "1.0.0", None),
    ];
    let (db, config) = single_repo(apps.clone());
    let g = db.run_graph();
    let set = db.resolve_install_set(&g, &config, &vec!["A".to_string(), "C".to_string()]).unwrap();
    let got: Vec<String> = set.iter().map(|t| t.package.metadata.name.clone()).collect();
    assert_eq!(got.len(), 4);
    let pos = |n: &str| got.iter().position(|x| x == n).unwrap();
    assert!(pos("A") < pos("C") && pos("A") < pos("D"));
    assert!(pos("B") < pos("C") && pos("B") < pos("D"));
}

#[test]
fn replacing_a_repository_keeps_one_of_each_name() {
    let (mut db, _) = single_repo(vec![app("A", "1.0.0", None)]);
    db.replace_repo("core".to_string(), BinRepo { applications: vec![app("A", "2.0.0", None)], date: 99 });
    assert_eq!(db.repos.len(), 1);
    assert_eq!(db.repos[0].1.date, 99);
    db.replace_repo("extra".to_string(), BinRepo::new(3));
    assert_eq!(db.repos.len(), 2);
    assert_eq!(db.repos[1].0, "extra");
}

#[test]
fn found_package_keeps_every_field() {
    let mut a = app("P", "1.0.0", None);
    a.metadata.description = Some("demo".to_string());
    a.metadata.licenses = vec![pi::License::MIT];
    a.security = Some(pi::Security {
        maintainer: vec!["m".to_string()],
        md5sum: "x".to_string(),
        sha256sum: "y".to_string(),
        gpg_public_key: "k".to_string(),
    });
    let (db, config) = single_repo(vec![a]);
    let t = db.find(&config, "P").unwrap().unwrap();
    assert_eq!(t.package.metadata.description, Some("demo".to_string()));
    assert_eq!(t.package.metadata.licenses, vec![pi::License::MIT]);
    assert_eq!(t.package.security.unwrap().gpg_public_key, "k");
}
