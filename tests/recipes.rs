use pi::bin_database::{BinDatabase, BinRepo};
use pi::build_file::{SourceKind, Stage};
use pi::function::stage_result;
use pi::manifest::{file_list_entry, gen_file_list, relative_to};
use pi::{Application, BuildFile, Configuration, Dependency, Function, Layout, Metadata, PkgError, Source, StageExit};

const EMPTY_SHA256: &str = "e3b0c44298fc1c149afbf4c8996fb92427ae41e4649b934ca495991b7852b855";

fn recipe() -> BuildFile {
    let mut b = BuildFile::new();
    b.metadata.name = "hello".to_string();
    b.metadata.version = "2.1.0".to_string();
    b.metadata.release = 3;
    b
}

#[test]
fn touched_file_gives_one_entry_with_empty_digest() {
    let files = vec![("/work/package/out.txt".to_string(), Vec::<u8>::new())];
    let list = gen_file_list(&files, "/work/package");
    assert_eq!(list, vec![format!("out.txt {}", EMPTY_SHA256)]);
}

#[test]
fn file_list_skips_the_manifest_and_keeps_order() {
    let files = vec![
        ("/work/package/usr/bin/hello".to_string(), b"abc".to_vec()),
        ("/work/package/manifest.yml".to_string(), b"name: x".to_vec()),
        ("/work/package/etc/hello.conf".to_string(), Vec::new()),
    ];
    let list = gen_file_list(&files, "/work/package");
    assert_eq!(
        list,
        vec![
            "usr/bin/hello ba7816bf8f01cfea414140de5dae2223b00361a396177a9cb410ff61f20015ad".to_string(),
            format!("etc/hello.conf {}", EMPTY_SHA256),
        ]
    );
    assert_eq!(file_list_entry("/r//a", "/r", b""), format!("a {}", EMPTY_SHA256));
    assert_eq!(relative_to("/r/r/x", "/r"), "x");
}

#[test]
fn archive_names_carry_version_release_and_architecture() {
    let b = recipe();
    assert_eq!(b.archive_name(), "hello-2.1.0-3-x86_64");
    let app = b.to_app(vec!["out.txt abc".to_string()]);
    assert_eq!(app.archive_name(), "hello-2.1.0-3-x86_64");
    assert_eq!(app.files, vec!["out.txt abc".to_string()]);
    assert_eq!(app.owned_paths(), vec!["out.txt".to_string()]);
}

#[test]
fn stages_run_in_order_and_stop_on_failure() {
    let mut b = recipe();
    assert_eq!(b.next_stage(None).unwrap(), Some(Stage::Package));
    b.prepare = Some(Function { commands: vec!["true".to_string()] });
    b.check = Some(Function::default());
    assert_eq!(b.next_stage(None).unwrap(), Some(Stage::Prepare));
    assert_eq!(b.next_stage(Some((Stage::Prepare, StageExit::Exited(0)))).unwrap(), Some(Stage::Check));
    assert_eq!(b.next_stage(Some((Stage::Check, StageExit::Exited(0)))).unwrap(), Some(Stage::Package));
    assert_eq!(b.next_stage(Some((Stage::Package, StageExit::Exited(0)))).unwrap(), None);
    match b.next_stage(Some((Stage::Prepare, StageExit::Exited(2)))) {
        Err(PkgError::ScriptFailure(m)) => assert_eq!(m, "Process exited with code: 2"),
        other => panic!("unexpected {:?}", other),
    }
    match stage_result(StageExit::Other(-5)) {
        Err(PkgError::ScriptFailure(m)) => assert_eq!(m, "Process exited with code: -5"),
        other => panic!("unexpected {:?}", other),
    }
    match stage_result(StageExit::Undetermined) {
        Err(PkgError::ScriptFailure(m)) => assert_eq!(m, "Undetermined"),
        other => panic!("unexpected {:?}", other),
    }
    assert!(stage_result(StageExit::Signaled(9)).is_err());
    assert!(b.stage_function(Stage::Build).is_none());
    assert!(b.stage_function(Stage::Package).is_some());
}

#[test]
fn script_joins_commands_by_lines() {
    let f = Function { commands: vec!["touch out.txt".to_string(), "make".to_string()] };
    assert_eq!(f.script(), "touch out.txt\nmake");
    assert_eq!(Function::default().script(), "");
}

#[test]
fn stage_environment_is_fixed() {
    let b = recipe();
    let l = Layout::new("/", "/home/u/pkg");
    let env = b.environment_with(&l, 8);
    let expect: Vec<(String, String)> = vec![
        ("MAKEFLAGS", "-j 8"),
        ("PKGNAME", "hello"),
        ("PKGVER", "2.1.0"),
        ("PKGREL", "3"),
        ("BASEDIR", "/home/u/pkg"),
        ("SRCDIR", "/home/u/pkg/source"),
        ("PKGDIR", "/home/u/pkg/package"),
        ("SHELL", "/bin/bash"),
    ]
    .into_iter()
    .map(|(a, b)| (a.to_string(), b.to_string()))
    .collect();
    assert_eq!(env, expect);
    let env = b.environment(&l);
    assert!(env[0].1.starts_with("-j "));
    assert_ne!(env[0].1, "-j 0");
}

#[test]
fn sources_dispatch_by_scheme() {
    let mut b = recipe();
    b.sources = Some(vec![
        Source { address: "git://example.org/x".to_string(), save_as: "x".to_string(), extract: false, extract_to: None },
        Source {
            address: "https://example.org/y.tar.gz".to_string(),
            save_as: "y.tar.gz".to_string(),
            extract: true,
            extract_to: Some("y".to_string()),
        },
        Source { address: "ftp://example.org/z".to_string(), save_as: "z".to_string(), extract: false, extract_to: None },
    ]);
    let l = Layout::new("/", "/w");
    let plan = b.source_plan(&l).unwrap();
    assert_eq!(plan[0].kind, SourceKind::Git);
    assert_eq!(plan[0].target, "/w/source/x");
    assert_eq!(plan[1].kind, SourceKind::Http);
    assert_eq!(plan[1].extract_to, Some("/w/source/y".to_string()));
    assert_eq!(plan[2].kind, SourceKind::Unsupported);
    b.sources = Some(vec![Source { address: "http://a/b".to_string(), save_as: "b".to_string(), extract: true, extract_to: None }]);
    match b.source_plan(&l) {
        Err(PkgError::Recipe(n)) => assert_eq!(n, "b"),
        other => panic!("unexpected {:?}", other),
    }
    let s = Source::new();
    assert!(s.address.is_empty() && !s.extract);
}

#[test]
fn build_dependencies_partition() {
    let mut b = recipe();
    let mut d = Dependency::new();
    d.build_dependencies = Some(vec!["gcc".to_string(), "make".to_string(), "cmake".to_string()]);
    b.dependencies = Some(d);
    let mut gcc = Metadata::default();
    gcc.name = "gcc".to_string();
    gcc.version = "1.0.0".to_string();
    let mut db = BinDatabase::new();
    db.repos.push((
        "core".to_string(),
        BinRepo { applications: vec![Application { metadata: gcc, security: None, dependencies: None, files: vec![] }], date: 0 },
    ));
    let config = Configuration::gen();
    match b.check_build_dependencies(&db, &config, &vec!["make".to_string()]) {
        Err(PkgError::NotFound(l)) => assert_eq!(l, vec!["cmake".to_string()]),
        other => panic!("unexpected {:?}", other),
    }
    let todo = b.check_build_dependencies(&db, &config, &vec!["make".to_string(), "cmake".to_string()]).unwrap();
    assert_eq!(todo, vec!["gcc".to_string()]);
    let deps = b.dependencies.as_ref().unwrap();
    assert_eq!(deps.check_build_dependencies(&vec!["gcc".to_string()]), Err(vec!["make".to_string(), "cmake".to_string()]));
    assert_eq!(deps.check_run_dependencies(&vec![]), Ok(()));
    assert_eq!(deps.check_opt_dependencies(&vec![]), Ok(()));
    assert_eq!(deps.check_test_dependencies(&vec![]), Ok(()));
}

#[test]
fn generated_recipe_has_one_git_source() {
    let b = BuildFile::new();
    let s = b.sources.unwrap();
    assert_eq!(s.len(), 1);
    assert_eq!(s[0].address, "git://github.com/calamares/calamares");
    assert_eq!(s[0].save_as, "calamares");
}
