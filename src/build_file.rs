//! Build recipes: what a package is built from, how, and how it becomes an
//! installable record.
use vstd::prelude::*;
use crate::address::{scheme_of, url_scheme};
use crate::application::{archive_name_of, Application};
use crate::bin_database::BinDatabase;
use crate::config::Configuration;
use crate::dependency::{missing, DepKind, Dependency};
use crate::deployment::Deployment;
use crate::error::PkgError;
use crate::function::{stage_result, Function, StageExit};
use crate::layout::{join_path, joined, Layout};
use crate::metadata::Metadata;
use crate::security::Security;
use crate::source::Source;
use crate::text::{decimal, decimal_string, views};

verus! {

#[derive(Clone, Debug)]
pub struct BuildFile {
    pub metadata: Metadata,
    pub sources: Option<Vec<Source>>,
    pub security: Option<Security>,
    pub dependencies: Option<Dependency>,
    pub prepare: Option<Function>,
    pub build: Option<Function>,
    pub check: Option<Function>,
    pub package: Function,
    pub deployment: Option<Deployment>,
}

/// A stage of a build, in the order they run.
#[derive(Clone, Copy, Debug, PartialEq, Eq, Structural)]
pub enum Stage {
    Prepare,
    Build,
    Check,
    Package,
}

/// How a source is fetched, by the scheme of its address.
#[derive(Clone, Debug, PartialEq, Eq, Structural)]
pub enum SourceKind {
    Git,
    Http,
    Unsupported,
}

/// One source to fetch: how, from where, to where, and where to unpack it.
#[derive(Clone, Debug)]
pub struct SourceStep {
    pub kind: SourceKind,
    pub address: String,
    pub target: String,
    pub extract_to: Option<String>,
}

/// The kind of fetch a scheme calls for.
pub open spec fn kind_of_scheme(scheme: Option<Seq<char>>) -> SourceKind {
    match scheme {
        Some(s) => if s == "git"@ {
            SourceKind::Git
        } else if s == "http"@ || s == "https"@ {
            SourceKind::Http
        } else {
            SourceKind::Unsupported
        },
        None => SourceKind::Unsupported,
    }
}

/// The kind of fetch an address calls for.
pub fn source_kind(address: &str) -> (r: SourceKind)
    ensures
        r == kind_of_scheme(url_scheme(address@)),
{
    match scheme_of(address) {
        Some(s) => {
            if crate::text::same_text(s.as_str(), "git") {
                SourceKind::Git
            } else if crate::text::same_text(s.as_str(), "http") || crate::text::same_text(s.as_str(), "https") {
                SourceKind::Http
            } else {
                SourceKind::Unsupported
            }
        },
        None => SourceKind::Unsupported,
    }
}

/// The build-dependency names of a recipe.
pub open spec fn build_deps(b: BuildFile) -> Seq<Seq<char>> {
    match b.dependencies {
        Some(d) => d.edges(DepKind::Build),
        None => Seq::empty(),
    }
}

/// The stages a recipe runs: the optional ones it declares, then packaging.
pub open spec fn stage_plan(b: BuildFile) -> Seq<Stage> {
    (if b.prepare is Some { seq![Stage::Prepare] } else { Seq::empty() })
        + (if b.build is Some { seq![Stage::Build] } else { Seq::empty() })
        + (if b.check is Some { seq![Stage::Check] } else { Seq::empty() })
        + seq![Stage::Package]
}

/// The position of a stage in the fixed order.
pub open spec fn stage_rank(s: Stage) -> int {
    match s {
        Stage::Prepare => 0,
        Stage::Build => 1,
        Stage::Check => 2,
        Stage::Package => 3,
    }
}

/// The stage that runs after one of the given rank (-1: none has run).
pub open spec fn following(b: BuildFile, after: int) -> Option<Stage> {
    if after < 0 && b.prepare is Some {
        Some(Stage::Prepare)
    } else if after < 1 && b.build is Some {
        Some(Stage::Build)
    } else if after < 2 && b.check is Some {
        Some(Stage::Check)
    } else if after < 3 {
        Some(Stage::Package)
    } else {
        None
    }
}

/// The environment every stage runs with.
pub open spec fn stage_env(b: BuildFile, l: Layout, cpus: nat) -> Seq<(Seq<char>, Seq<char>)> {
    seq![
        ("MAKEFLAGS"@, "-j "@ + decimal(cpus)),
        ("PKGNAME"@, b.metadata.name@),
        ("PKGVER"@, b.metadata.version@),
        ("PKGREL"@, decimal(b.metadata.release as nat)),
        ("BASEDIR"@, l.cwd_dir@),
        ("SRCDIR"@, l.src_dir@),
        ("PKGDIR"@, l.pkg_dir@),
        ("SHELL"@, "/bin/bash"@),
    ]
}

/// The text of a list of name and value pairs.
pub open spec fn pair_views(v: Seq<(String, String)>) -> Seq<(Seq<char>, Seq<char>)> {
    v.map_values(|p: (String, String)| (p.0@, p.1@))
}

/// The fetch step a source calls for under the source directory `src`.
pub open spec fn step_for(s: Source, src: Seq<char>, st: SourceStep) -> bool {
    &&& st.kind == kind_of_scheme(url_scheme(s.address@))
    &&& st.address@ == s.address@
    &&& st.target@ == joined(src, s.save_as@)
    &&& if s.extract {
        s.extract_to matches Some(t) && st.extract_to matches Some(x) && x@ == joined(src, t@)
    } else {
        st.extract_to is None
    }
}

/// Relies on num_cpus's `get`: the number of CPUs available, at least one.
#[verifier::external_body]
fn available_cpus() -> (r: usize)
    ensures
        r >= 1,
{
    num_cpus::get()
}

/// A name and value pair of the environment.
fn env_pair(name: &str, value: String) -> (r: (String, String))
    ensures
        r.0@ == name@,
        r.1@ == value@,
{
    (String::from_str(name), value)
}

impl BuildFile {
    /// The recipe written by `generate`: one git source to fill in.
    pub fn new() -> (r: Self)
        ensures
            r.sources matches Some(v) && v@.len() == 1
                && v@[0].address@ == "git://github.com/calamares/calamares"@
                && v@[0].save_as@ == "calamares"@
                && !v@[0].extract && v@[0].extract_to is None,
            r.metadata.name@.len() == 0,
            r.security is None,
            r.dependencies is None,
            r.prepare is None,
            r.build is None,
            r.check is None,
            r.package.commands@.len() == 0,
            r.deployment is None,
    {
        let mut sources: Vec<Source> = Vec::new();
        sources.push(Source {
            address: String::from_str("git://github.com/calamares/calamares"),
            save_as: String::from_str("calamares"),
            extract: false,
            extract_to: None,
        });
        BuildFile {
            metadata: Metadata::default(),
            sources: Some(sources),
            security: None,
            dependencies: None,
            prepare: None,
            build: None,
            check: None,
            package: Function::default(),
            deployment: None,
        }
    }

    /// `{name}-{version}-{release}-x86_64`.
    pub fn archive_name(&self) -> (r: String)
        ensures
            r@ == archive_name_of(self.metadata.name@, self.metadata.version@, self.metadata.release),
    {
        crate::application::archive_name_for(self.metadata.name.as_str(), self.metadata.version.as_str(), self.metadata.release)
    }

    /// The installable record of a finished build, with the file list
    /// generated from its staging directory.
    pub fn to_app(&self, files: Vec<String>) -> (r: Application)
        ensures
            crate::metadata::same_metadata(r.metadata, self.metadata),
            crate::security::same_security(r.security, self.security),
            crate::dependency::same_dependencies(r.dependencies, self.dependencies),
            r.files@ == files@,
    {
        Application {
            metadata: self.metadata.duplicate(),
            security: crate::security::copy_security(&self.security),
            dependencies: crate::dependency::copy_dependencies(&self.dependencies),
            files,
        }
    }

    /// The function of a stage.
    pub fn stage_function(&self, s: Stage) -> (r: Option<&Function>)
        ensures
            r is Some <==> stage_plan(*self).contains(s),
            r matches Some(f) ==> *f == match s {
                Stage::Prepare => self.prepare->Some_0,
                Stage::Build => self.build->Some_0,
                Stage::Check => self.check->Some_0,
                Stage::Package => self.package,
            },
    {
        proof {
            let p = stage_plan(*self);
            if self.prepare is Some && s == Stage::Prepare { assert(p[0] == s); }
            if self.build is Some && s == Stage::Build {
                let i = if self.prepare is Some { 1int } else { 0int };
                assert(p[i] == s);
            }
            if self.check is Some && s == Stage::Check {
                let i = (if self.prepare is Some { 1int } else { 0int }) + (if self.build is Some { 1int } else { 0int });
                assert(p[i] == s);
            }
            if s == Stage::Package { assert(p[p.len() - 1] == s); }
        }
        match s {
            Stage::Prepare => match &self.prepare { Some(f) => Some(f), None => None },
            Stage::Build => match &self.build { Some(f) => Some(f), None => None },
            Stage::Check => match &self.check { Some(f) => Some(f), None => None },
            Stage::Package => Some(&self.package),
        }
    }
}

impl BuildFile {
    /// What runs after a stage has ended with `exit`, or first where none
    /// has run: a failed stage ends the build with its diagnostic, and
    /// nothing runs after packaging.
    pub fn next_stage(&self, finished: Option<(Stage, StageExit)>) -> (r: Result<Option<Stage>, PkgError>)
        ensures
            finished is None ==> (r matches Ok(o) && o == following(*self, -1)),
            finished matches Some((s, e)) ==> (e == StageExit::Exited(0)
                ==> (r matches Ok(o) && o == following(*self, stage_rank(s)))),
            finished matches Some((s, e)) ==> (e != StageExit::Exited(0)
                ==> (r matches Err(PkgError::ScriptFailure(m)) && m@ == crate::function::exit_message(e))),
    {
        let after: i8 = match finished {
            None => -1,
            Some((s, e)) => {
                match stage_result(e) {
                    Err(err) => {
                        return Err(err);
                    },
                    Ok(()) => {},
                }
                match s {
                    Stage::Prepare => 0,
                    Stage::Build => 1,
                    Stage::Check => 2,
                    Stage::Package => 3,
                }
            },
        };
        if after < 0 && self.prepare.is_some() {
            Ok(Some(Stage::Prepare))
        } else if after < 1 && self.build.is_some() {
            Ok(Some(Stage::Build))
        } else if after < 2 && self.check.is_some() {
            Ok(Some(Stage::Check))
        } else if after < 3 {
            Ok(Some(Stage::Package))
        } else {
            Ok(None)
        }
    }

    /// The environment of every stage, with `cpus` as the parallelism hint.
    pub fn environment_with(&self, layout: &Layout, cpus: usize) -> (r: Vec<(String, String)>)
        ensures
            pair_views(r@) == stage_env(*self, *layout, cpus as nat),
    {
        let mut flags = String::from_str("-j ");
        let n = decimal_string(cpus as u64);
        flags.append(n.as_str());
        let mut r: Vec<(String, String)> = Vec::new();
        r.push(env_pair("MAKEFLAGS", flags));
        r.push(env_pair("PKGNAME", self.metadata.name.clone()));
        r.push(env_pair("PKGVER", self.metadata.version.clone()));
        r.push(env_pair("PKGREL", decimal_string(self.metadata.release as u64)));
        r.push(env_pair("BASEDIR", layout.cwd_dir.clone()));
        r.push(env_pair("SRCDIR", layout.src_dir.clone()));
        r.push(env_pair("PKGDIR", layout.pkg_dir.clone()));
        r.push(env_pair("SHELL", String::from_str("/bin/bash")));
        assert(pair_views(r@) =~= stage_env(*self, *layout, cpus as nat));
        r
    }

    /// The environment of every stage, with the number of available CPUs as
    /// the parallelism hint.
    pub fn environment(&self, layout: &Layout) -> (r: Vec<(String, String)>)
        ensures
            exists|n: nat| n >= 1 && pair_views(r@) == stage_env(*self, *layout, n),
    {
        let cpus = available_cpus();
        self.environment_with(layout, cpus)
    }

    /// The build dependencies to install before building: those not
    /// installed. Fails with all of them where some is held by no
    /// configured repository.
    pub fn check_build_dependencies(&self, db: &BinDatabase, config: &Configuration, installed: &Vec<String>) -> (r: Result<Vec<String>, PkgError>)
        ensures
            crate::bin_database::first_unconfigured(db.repos@, config.repos@) matches Some(n)
                ==> (r matches Err(PkgError::Config(m)) && m@ == n),
            crate::bin_database::first_unconfigured(db.repos@, config.repos@) is None ==> {
                let todo = missing(build_deps(*self), views(installed@));
                let absent = crate::bin_database::unresolved(config.repos@, db.repos@, todo);
                &&& absent.len() > 0 ==> (r matches Err(PkgError::NotFound(l)) && views(l@) == absent)
                &&& absent.len() == 0 ==> (r matches Ok(v) && views(v@) == todo)
            },
    {
        if let Some(n) = db.unconfigured_repo(config) {
            return Err(PkgError::Config(n));
        }
        let todo = match &self.dependencies {
            Some(d) => match d.list(DepKind::Build) {
                Some(v) => crate::dependency::missing_names(v, installed),
                None => Vec::new(),
            },
            None => Vec::new(),
        };
        let absent = db.unresolved_names(config, &todo);
        if absent.len() > 0 {
            Err(PkgError::NotFound(absent))
        } else {
            Ok(todo)
        }
    }

    /// The sources to fetch, each with its kind, target and unpack
    /// directory under the source directory. A source that asks to be
    /// unpacked without saying where is an error of the recipe.
    pub fn source_plan(&self, layout: &Layout) -> (r: Result<Vec<SourceStep>, PkgError>)
        ensures
            self.sources is None ==> (r matches Ok(v) && v@.len() == 0),
            self.sources matches Some(srcs) ==> {
                &&& r is Ok <==> forall|i: int| 0 <= i < srcs@.len() && (#[trigger] srcs@[i]).extract ==> srcs@[i].extract_to is Some
                &&& r matches Ok(v) ==> v@.len() == srcs@.len()
                    && forall|i: int| 0 <= i < srcs@.len() ==> step_for(#[trigger] srcs@[i], layout.src_dir@, v@[i])
                &&& r matches Err(e) ==> exists|i: int| 0 <= i < srcs@.len() && (#[trigger] srcs@[i]).extract
                    && srcs@[i].extract_to is None && (e matches PkgError::Recipe(m) && m@ == srcs@[i].save_as@)
            },
    {
        let mut steps: Vec<SourceStep> = Vec::new();
        match &self.sources {
            None => Ok(steps),
            Some(srcs) => {
                let mut i: usize = 0;
                while i < srcs.len()
                    invariant
                        i <= srcs@.len(),
                        self.sources == Some(*srcs),
                        steps@.len() == i,
                        forall|j: int| 0 <= j < i ==> step_for(#[trigger] srcs@[j], layout.src_dir@, steps@[j]),
                        forall|j: int| 0 <= j < i && (#[trigger] srcs@[j]).extract ==> srcs@[j].extract_to is Some,
                    decreases srcs@.len() - i,
                {
                    let s = &srcs[i];
                    let extract_to = if s.extract {
                        match &s.extract_to {
                            Some(t) => Some(join_path(layout.src_dir.as_str(), t.as_str())),
                            None => {
                                assert(srcs@[i as int] == *s);
                                return Err(PkgError::Recipe(s.save_as.clone()));
                            },
                        }
                    } else {
                        None
                    };
                    steps.push(SourceStep {
                        kind: source_kind(s.address.as_str()),
                        address: s.address.clone(),
                        target: join_path(layout.src_dir.as_str(), s.save_as.as_str()),
                        extract_to,
                    });
                    i = i + 1;
                }
                Ok(steps)
            },
        }
    }
}

} // verus!
