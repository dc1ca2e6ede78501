use pi::database::{BuildFileDB, RegistrDB};
use pi::graph::closure_of;
use pi::{Application, BuildFile, Dependency, Metadata, SourceDatabase, SourceRepo};

fn recipe(name: &str, run: Vec<&str>) -> BuildFile {
    let mut b = BuildFile::new();
    b.metadata.name = name.to_string();
    let mut d = Dependency::new();
    d.run_dependencies = Some(run.iter().map(|s| s.to_string()).collect());
    b.dependencies = Some(d);
    b
}

#[test]
fn recipe_lookup_and_direct_dependencies() {
    let db = BuildFileDB { pkgbuilds: vec![recipe("a", vec!["b", "c"]), recipe("b", vec![]), recipe("a", vec!["z"])] };
    assert_eq!(db.find_by_name("a".to_string()).unwrap().metadata.name, "a");
    assert!(db.find_by_name("q".to_string()).is_none());
    assert_eq!(db.find_by_name("a".to_string()).unwrap().dependencies.as_ref().unwrap().run_dependencies.as_ref().unwrap().len(), 2);
    let db = BuildFileDB { pkgbuilds: vec![recipe("a", vec!["b", "c"]), recipe("b", vec![])] };
    let mut d = db.find_dependencies("a".to_string(), None).unwrap();
    d.sort();
    assert_eq!(d, vec!["b".to_string(), "c".to_string()]);
    assert_eq!(
        db.find_dependencies("a".to_string(), Some(vec!["c".to_string()])).unwrap(),
        vec!["c".to_string(), "b".to_string()]
    );
    assert_eq!(db.find_dependencies("q".to_string(), Some(vec!["x".to_string()])).unwrap(), vec!["x".to_string()]);
}

#[test]
fn registry_lookup_finds_first_of_name() {
    let mut m1 = Metadata::default();
    m1.name = "a".to_string();
    m1.version = "1".to_string();
    let mut m2 = m1.clone();
    m2.version = "2".to_string();
    let reg = RegistrDB {
        applications: vec![
            Application { metadata: m1, security: None, dependencies: None, files: vec![] },
            Application { metadata: m2, security: None, dependencies: None, files: vec![] },
        ],
    };
    assert_eq!(reg.find_by_name("a".to_string()).unwrap().metadata.version, "1");
    assert!(reg.find_by_name("b".to_string()).is_none());
}

#[test]
fn source_repository_graphs() {
    let mut repo = SourceRepo::new(7);
    repo.applications = vec![recipe("a", vec!["b"]), recipe("b", vec![])];
    let g = repo.get_run_dependencies();
    let mut c = closure_of(&g, &"a".to_string()).unwrap();
    c.sort();
    assert_eq!(c, vec!["a".to_string(), "b".to_string()]);
    let g = repo.get_build_dependencies();
    assert_eq!(closure_of(&g, &"a".to_string()).unwrap(), vec!["a".to_string()]);
    assert_eq!(closure_of(&repo.get_opt_dependencies(), &"b".to_string()).unwrap(), vec!["b".to_string()]);
    assert_eq!(closure_of(&repo.get_test_dependencies(), &"b".to_string()).unwrap(), vec!["b".to_string()]);
    assert_eq!(repo.date, 7);
    assert!(SourceDatabase::new().repos.is_empty());
}

#[test]
fn source_repository_add_and_remove() {
    let mut repo = SourceRepo::new(10);
    assert!(repo.add(recipe("a", vec![]), 20));
    assert!(!repo.add(recipe("a", vec!["x"]), 5));
    assert_eq!(repo.applications.len(), 1);
    assert_eq!(repo.date, 20);
    let gone = repo.remove("a", 30).unwrap();
    assert_eq!(gone.metadata.name, "a");
    assert!(repo.applications.is_empty());
    assert_eq!(repo.date, 30);
    assert!(repo.remove("a", 1).is_none());
    assert_eq!(repo.date, 30);
}

#[test]
fn recipe_dependencies_are_transitive() {
    let db = BuildFileDB { pkgbuilds: vec![recipe("a", vec!["b"]), recipe("b", vec!["c"]), recipe("c", vec![])] };
    let mut d = db.find_dependencies("a".to_string(), None).unwrap();
    d.sort();
    assert_eq!(d, vec!["b".to_string(), "c".to_string()]);
    let looped = BuildFileDB { pkgbuilds: vec![recipe("a", vec!["b"]), recipe("b", vec!["a"])] };
    match looped.find_dependencies("a".to_string(), None) {
        Err(pi::PkgError::CycleDetected(n)) => assert_eq!(n, "a"),
        other => panic!("unexpected {:?}", other),
    }
}

#[test]
fn repeated_initial_names_come_back_once() {
    let db = BuildFileDB { pkgbuilds: vec![recipe("a", vec!["b", "x"]), recipe("b", vec![])] };
    let got = db
        .find_dependencies("a".to_string(), Some(vec!["x".to_string(), "y".to_string(), "x".to_string()]))
        .unwrap();
    assert_eq!(got, vec!["x".to_string(), "y".to_string(), "b".to_string()]);
    let none = db.find_dependencies("q".to_string(), Some(vec!["x".to_string(), "x".to_string()])).unwrap();
    assert_eq!(none, vec!["x".to_string()]);
}
