//! Binary repositories and the resolver that maps package names to
//! downloadable artifacts.
use vstd::prelude::*;
use crate::address::{join_url, url_join};
use crate::application::{archive_name_of, same_package, Application};
use crate::config::{unconfigured, Configuration, RepoMeta};
use crate::dependency::DepKind;
use crate::error::PkgError;
use crate::graph::{all_apps, closure_error, closure_ok, cycle_reachable, dependency_graph, graph_of, registered, in_closures, in_request_order, install_closure, DependencyGraph};
use crate::text::{lemma_drop_last_no_duplicates, lemma_push_contains, lemma_push_no_duplicates, views};

verus! {

#[derive(Clone, Debug)]
pub struct BinRepo {
    pub applications: Vec<Application>,
    /// Seconds since the UNIX epoch of the last change.
    pub date: u64,
}

#[derive(Clone, Debug)]
pub struct BinDatabase {
    /// Each repository under the name it is configured with.
    pub repos: Vec<(String, BinRepo)>,
}

#[derive(Clone, Debug)]
pub struct TargetPackage {
    pub repo: String,
    pub package_address: String,
    pub package: Application,
}

/// The first package named `name`.
pub open spec fn app_named(apps: Seq<Application>, name: Seq<char>) -> Option<Application>
    decreases apps.len(),
{
    if apps.len() == 0 {
        None
    } else if apps[0].metadata.name@ == name {
        Some(apps[0])
    } else {
        app_named(apps.drop_first(), name)
    }
}

/// The first repository of the database named `name`.
pub open spec fn repo_named(db: Seq<(String, BinRepo)>, name: Seq<char>) -> Option<BinRepo>
    decreases db.len(),
{
    if db.len() == 0 {
        None
    } else if db[0].0@ == name {
        Some(db[0].1)
    } else {
        repo_named(db.drop_first(), name)
    }
}

/// The first repository of the database that has no configured address.
pub open spec fn first_unconfigured(db: Seq<(String, BinRepo)>, repos: Seq<RepoMeta>) -> Option<Seq<char>>
    decreases db.len(),
{
    if db.len() == 0 {
        None
    } else if unconfigured(repos, db[0].0@) {
        Some(db[0].0@)
    } else {
        first_unconfigured(db.drop_first(), repos)
    }
}

/// The package `name` as held by one configured repository.
pub open spec fn held_by(db: Seq<(String, BinRepo)>, repo: Seq<char>, name: Seq<char>) -> Option<Application> {
    match repo_named(db, repo) {
        Some(r) => app_named(r.applications@, name),
        None => None,
    }
}

/// The first configured repository, in configuration order, that holds
/// `name`, with the package it holds: first listed wins.
pub open spec fn provider(repos: Seq<RepoMeta>, db: Seq<(String, BinRepo)>, name: Seq<char>) -> Option<(RepoMeta, Application)>
    decreases repos.len(),
{
    if repos.len() == 0 {
        None
    } else {
        match held_by(db, repos[0].name@, name) {
            Some(a) => Some((repos[0], a)),
            None => provider(repos.drop_first(), db, name),
        }
    }
}

/// The artifact file name of a package: its archive name and `.app`.
pub open spec fn package_file(a: Application) -> Seq<char> {
    archive_name_of(a.metadata.name@, a.metadata.version@, a.metadata.release) + seq!['.', 'a', 'p', 'p']
}

/// What `find` owes: a configuration error for the first repository without
/// an address; otherwise the provider's package at its joined address, or a
/// configuration error for a provider whose address does not join.
pub open spec fn find_result(
    repos: Seq<RepoMeta>,
    db: Seq<(String, BinRepo)>,
    name: Seq<char>,
    r: Result<Option<TargetPackage>, PkgError>,
) -> bool {
    match first_unconfigured(db, repos) {
        Some(n) => r matches Err(PkgError::Config(m)) && m@ == n,
        None => match provider(repos, db, name) {
            None => r matches Ok(None),
            Some((rm, a)) => match url_join(rm.static_address@, package_file(a)) {
                None => r matches Err(PkgError::Config(m)) && m@ == rm.name@,
                Some(u) => r matches Ok(Some(t)) && t.repo@ == rm.name@ && t.package_address@ == u
                    && same_package(t.package, a),
            },
        },
    }
}

/// The names among `names` that no configured repository holds, in order.
pub open spec fn unresolved(repos: Seq<RepoMeta>, db: Seq<(String, BinRepo)>, names: Seq<Seq<char>>) -> Seq<Seq<char>>
    decreases names.len(),
{
    if names.len() == 0 {
        Seq::empty()
    } else {
        let rest = unresolved(repos, db, names.drop_last());
        if provider(repos, db, names.last()) is None {
            rest.push(names.last())
        } else {
            rest
        }
    }
}

/// `name` is held by a configured repository whose address joins.
pub open spec fn resolvable(repos: Seq<RepoMeta>, db: Seq<(String, BinRepo)>, name: Seq<char>) -> bool {
    match provider(repos, db, name) {
        Some((rm, a)) => url_join(rm.static_address@, package_file(a)) is Some,
        None => false,
    }
}

/// What `unresolved` holds: exactly the names without a provider.
pub proof fn lemma_unresolved(repos: Seq<RepoMeta>, db: Seq<(String, BinRepo)>, names: Seq<Seq<char>>)
    ensures
        forall|x: Seq<char>| #[trigger] unresolved(repos, db, names).contains(x)
            <==> (names.contains(x) && provider(repos, db, x) is None),
        names.no_duplicates() ==> unresolved(repos, db, names).no_duplicates(),
    decreases names.len(),
{
    if names.len() > 0 {
        let rest = names.drop_last();
        let last = names.last();
        lemma_unresolved(repos, db, rest);
        let u = unresolved(repos, db, rest);
        assert(names =~= rest.push(last));
        lemma_push_contains(rest, last);
        lemma_push_contains(u, last);
        if names.no_duplicates() {
            lemma_drop_last_no_duplicates(names);
            if provider(repos, db, last) is None {
                lemma_push_no_duplicates(u, last);
            }
        }
    }
}

/// What `resolve_install_set` owes, check by check.
pub open spec fn install_set_result(
    repos: Seq<RepoMeta>,
    db: Seq<(String, BinRepo)>,
    g: Map<Seq<char>, Set<Seq<char>>>,
    requested: Seq<Seq<char>>,
    r: Result<Vec<TargetPackage>, PkgError>,
) -> bool {
    match first_unconfigured(db, repos) {
        Some(n) => r matches Err(PkgError::Config(m)) && m@ == n,
        None => if unresolved(repos, db, requested).len() > 0 {
            r matches Err(PkgError::NotFound(l)) && views(l@) == unresolved(repos, db, requested)
        } else if exists|i: int| 0 <= i < requested.len() && !closure_ok(g, #[trigger] requested[i]) {
            r matches Err(e) && closure_error(g, requested, e)
        } else if exists|x: Seq<char>| in_closures(g, requested, x) && #[trigger] provider(repos, db, x) is None {
            r matches Err(PkgError::MissingFromDatabase(l)) && views(l@).no_duplicates()
                && forall|x: Seq<char>| #[trigger] views(l@).contains(x)
                    <==> (in_closures(g, requested, x) && provider(repos, db, x) is None)
        } else {
            &&& (forall|x: Seq<char>| in_closures(g, requested, x) ==> #[trigger] resolvable(repos, db, x)) ==> r is Ok
            &&& r matches Ok(ts) ==> exists|l: Seq<Seq<char>>| {
                &&& l.no_duplicates()
                &&& in_request_order(g, requested, l)
                &&& forall|x: Seq<char>| #[trigger] l.contains(x) <==> in_closures(g, requested, x)
                &&& ts@.len() == l.len()
                &&& forall|i: int| 0 <= i < l.len() ==> find_result(repos, db, #[trigger] l[i], Ok(Some(ts@[i])))
            }
            &&& r matches Err(e) ==> exists|x: Seq<char>| in_closures(g, requested, x)
                && #[trigger] find_result(repos, db, x, Err(e))
        },
    }
}

/// The position of the first package named `name`.
pub fn app_index(apps: &Vec<Application>, name: &str) -> (r: Option<usize>)
    ensures
        r matches Some(i) ==> (i < apps@.len() && app_named(apps@, name@) == Some(apps@[i as int])
            && apps@[i as int].metadata.name@ == name@
            && forall|j: int| 0 <= j < i ==> apps@[j].metadata.name@ != name@),
        r is None <==> app_named(apps@, name@) is None,
        r is None <==> forall|j: int| 0 <= j < apps@.len() ==> apps@[j].metadata.name@ != name@,
{
    assert(apps@.subrange(0, apps@.len() as int) =~= apps@);
    let mut i: usize = 0;
    while i < apps.len()
        invariant
            i <= apps@.len(),
            app_named(apps@, name@) == app_named(apps@.subrange(i as int, apps@.len() as int), name@),
            forall|j: int| 0 <= j < i ==> apps@[j].metadata.name@ != name@,
        decreases apps@.len() - i,
    {
        let ghost rest = apps@.subrange(i as int, apps@.len() as int);
        assert(rest.drop_first() =~= apps@.subrange(i as int + 1, apps@.len() as int));
        assert(rest[0] == apps@[i as int]);
        if crate::text::same_text(apps[i].metadata.name.as_str(), name) {
            return Some(i);
        }
        i = i + 1;
    }
    None
}

/// The position of the first repository of the database named `name`.
pub(crate) fn repo_index(db: &Vec<(String, BinRepo)>, name: &str) -> (r: Option<usize>)
    ensures
        r matches Some(i) ==> (i < db@.len() && repo_named(db@, name@) == Some(db@[i as int].1)
            && db@[i as int].0@ == name@
            && forall|j: int| 0 <= j < i ==> db@[j].0@ != name@),
        r is None <==> repo_named(db@, name@) is None,
        r is None <==> forall|j: int| 0 <= j < db@.len() ==> db@[j].0@ != name@,
{
    assert(db@.subrange(0, db@.len() as int) =~= db@);
    let mut i: usize = 0;
    while i < db.len()
        invariant
            i <= db@.len(),
            repo_named(db@, name@) == repo_named(db@.subrange(i as int, db@.len() as int), name@),
            forall|j: int| 0 <= j < i ==> db@[j].0@ != name@,
        decreases db@.len() - i,
    {
        let ghost rest = db@.subrange(i as int, db@.len() as int);
        assert(rest.drop_first() =~= db@.subrange(i as int + 1, db@.len() as int));
        assert(rest[0] == db@[i as int]);
        if crate::text::same_text(db[i].0.as_str(), name) {
            return Some(i);
        }
        i = i + 1;
    }
    None
}

impl BinDatabase {
    /// No two repositories share a name.
    pub open spec fn wf(&self) -> bool {
        forall|i: int, j: int| 0 <= i < j < self.repos@.len() ==> self.repos@[i].0@ != self.repos@[j].0@
    }

    /// Puts `repo` in the database under `name`: in place of the first
    /// repository of that name, or after the others where there is none.
    pub fn replace_repo(&mut self, name: String, repo: BinRepo)
        ensures
            old(self).wf() ==> final(self).wf(),
            repo_named(old(self).repos@, name@) is None ==> final(self).repos@ == old(self).repos@.push((name, repo)),
            repo_named(old(self).repos@, name@) is Some ==> exists|k: int| {
                &&& 0 <= k < old(self).repos@.len()
                &&& old(self).repos@[k].0@ == name@
                &&& forall|j: int| 0 <= j < k ==> old(self).repos@[j].0@ != name@
                &&& final(self).repos@ == old(self).repos@.update(k, (name, repo))
            },
    {
        let ghost before = self.repos@;
        match repo_index(&self.repos, name.as_str()) {
            Some(k) => {
                let ghost entry = (name, repo);
                self.repos.set(k, (name, repo));
                assert(self.repos@ == before.update(k as int, entry));
                assert(forall|j: int| 0 <= j < before.len() ==> #[trigger] self.repos@[j].0@ == before[j].0@);
            },
            None => {
                self.repos.push((name, repo));
            },
        }
    }

    /// The run-time dependency graph over every package of every
    /// repository.
    pub fn run_graph(&self) -> (g: DependencyGraph)
        ensures
            g.edges() == graph_of(crate::graph::all_apps(self.repos@), DepKind::Run),
    {
        crate::graph::database_graph(&self.repos, DepKind::Run)
    }

    /// A database without repositories.
    pub fn new() -> (r: Self)
        ensures
            r.repos@.len() == 0,
    {
        BinDatabase { repos: Vec::new() }
    }

    /// The first repository of the database that has no configured address.
    pub fn unconfigured_repo(&self, config: &Configuration) -> (r: Option<String>)
        ensures
            crate::address::opt_text(r) == first_unconfigured(self.repos@, config.repos@),
    {
        assert(self.repos@.subrange(0, self.repos@.len() as int) =~= self.repos@);
        let mut i: usize = 0;
        while i < self.repos.len()
            invariant
                i <= self.repos@.len(),
                first_unconfigured(self.repos@, config.repos@)
                    == first_unconfigured(self.repos@.subrange(i as int, self.repos@.len() as int), config.repos@),
            decreases self.repos@.len() - i,
        {
            let ghost rest = self.repos@.subrange(i as int, self.repos@.len() as int);
            assert(rest.drop_first() =~= self.repos@.subrange(i as int + 1, self.repos@.len() as int));
            assert(rest[0] == self.repos@[i as int]);
            if config.position(self.repos[i].0.as_str()).is_none() {
                return Some(self.repos[i].0.clone());
            }
            i = i + 1;
        }
        None
    }

    /// Where `name` is held: the configured repository, the database
    /// repository and the package positions.
    pub(crate) fn provider_position(&self, config: &Configuration, name: &str) -> (r: Option<(usize, usize, usize)>)
        ensures
            r is None <==> provider(config.repos@, self.repos@, name@) is None,
            r matches Some((i, k, j)) ==> {
                &&& i < config.repos@.len()
                &&& k < self.repos@.len()
                &&& j < self.repos@[k as int].1.applications@.len()
                &&& provider(config.repos@, self.repos@, name@)
                    == Some((config.repos@[i as int], self.repos@[k as int].1.applications@[j as int]))
            },
    {
        assert(config.repos@.subrange(0, config.repos@.len() as int) =~= config.repos@);
        let mut i: usize = 0;
        while i < config.repos.len()
            invariant
                i <= config.repos@.len(),
                provider(config.repos@, self.repos@, name@)
                    == provider(config.repos@.subrange(i as int, config.repos@.len() as int), self.repos@, name@),
            decreases config.repos@.len() - i,
        {
            let ghost rest = config.repos@.subrange(i as int, config.repos@.len() as int);
            assert(rest.drop_first() =~= config.repos@.subrange(i as int + 1, config.repos@.len() as int));
            assert(rest[0] == config.repos@[i as int]);
            match repo_index(&self.repos, config.repos[i].name.as_str()) {
                Some(k) => match app_index(&self.repos[k].1.applications, name) {
                    Some(j) => {
                        return Some((i, k, j));
                    },
                    None => {},
                },
                None => {},
            }
            i = i + 1;
        }
        None
    }

    /// The names among `names` that no configured repository holds.
    pub fn unresolved_names(&self, config: &Configuration, names: &Vec<String>) -> (r: Vec<String>)
        ensures
            views(r@) == unresolved(config.repos@, self.repos@, views(names@)),
    {
        let mut r: Vec<String> = Vec::new();
        let mut i: usize = 0;
        while i < names.len()
            invariant
                i <= names@.len(),
                views(r@) == unresolved(config.repos@, self.repos@, views(names@.subrange(0, i as int))),
            decreases names@.len() - i,
        {
            let ghost before = views(names@.subrange(0, i as int));
            let ghost after = views(names@.subrange(0, i as int + 1));
            assert(after.drop_last() =~= before);
            assert(after.last() == names@[i as int]@);
            if self.provider_position(config, names[i].as_str()).is_none() {
                r.push(names[i].clone());
                assert(views(r@) =~= unresolved(config.repos@, self.repos@, before).push(names@[i as int]@));
            }
            i = i + 1;
        }
        assert(names@.subrange(0, names@.len() as int) =~= names@);
        r
    }

    /// Resolves `name` to a downloadable artifact. The first configured
    /// repository that holds it wins; a repository of the database without
    /// a configured address is an error whatever is asked for.
    pub fn find(&self, config: &Configuration, name: &str) -> (r: Result<Option<TargetPackage>, PkgError>)
        ensures
            find_result(config.repos@, self.repos@, name@, r),
    {
        if let Some(n) = self.unconfigured_repo(config) {
            return Err(PkgError::Config(n));
        }
        match self.provider_position(config, name) {
            None => Ok(None),
            Some((i, k, j)) => {
                let rm = &config.repos[i];
                let app = &self.repos[k].1.applications[j];
                let mut file = app.archive_name();
                proof { reveal_strlit(".app"); }
                file.append(".app");
                assert(file@ == package_file(*app));
                match join_url(rm.static_address.as_str(), file.as_str()) {
                    None => Err(PkgError::Config(rm.name.clone())),
                    Some(u) => Ok(Some(TargetPackage {
                        repo: rm.name.clone(),
                        package_address: u,
                        package: app.duplicate(),
                    })),
                }
            },
        }
    }
}

impl BinDatabase {
    /// Resolves every name to its artifact. Names that no repository holds
    /// are reported together, before any other resolution.
    pub fn resolve_targets(&self, config: &Configuration, names: &Vec<String>) -> (r: Result<Vec<TargetPackage>, PkgError>)
        ensures
            first_unconfigured(self.repos@, config.repos@) matches Some(n) ==> (r matches Err(PkgError::Config(m)) && m@ == n),
            first_unconfigured(self.repos@, config.repos@) is None
                && unresolved(config.repos@, self.repos@, views(names@)).len() > 0
                ==> (r matches Err(PkgError::MissingFromDatabase(l))
                    && views(l@) == unresolved(config.repos@, self.repos@, views(names@))),
            first_unconfigured(self.repos@, config.repos@) is None
                && unresolved(config.repos@, self.repos@, views(names@)).len() == 0
                ==> (r is Ok <==> forall|i: int| 0 <= i < names@.len()
                    ==> resolvable(config.repos@, self.repos@, #[trigger] names@[i]@)),
            r matches Ok(ts) ==> (ts@.len() == names@.len() && forall|i: int| 0 <= i < names@.len()
                ==> find_result(config.repos@, self.repos@, #[trigger] names@[i]@, Ok(Some(ts@[i])))),
            first_unconfigured(self.repos@, config.repos@) is None
                && unresolved(config.repos@, self.repos@, views(names@)).len() == 0
                ==> (r matches Err(e) ==> exists|i: int| 0 <= i < names@.len()
                    && find_result(config.repos@, self.repos@, #[trigger] names@[i]@, Err(e))),
    {
        if let Some(n) = self.unconfigured_repo(config) {
            return Err(PkgError::Config(n));
        }
        let missing = self.unresolved_names(config, names);
        if missing.len() > 0 {
            return Err(PkgError::MissingFromDatabase(missing));
        }
        proof {
            lemma_unresolved(config.repos@, self.repos@, views(names@));
        }
        let mut ts: Vec<TargetPackage> = Vec::new();
        let mut i: usize = 0;
        while i < names.len()
            invariant
                i <= names@.len(),
                first_unconfigured(self.repos@, config.repos@) is None,
                unresolved(config.repos@, self.repos@, views(names@)).len() == 0,
                forall|x: Seq<char>| #[trigger] unresolved(config.repos@, self.repos@, views(names@)).contains(x)
                    <==> (views(names@).contains(x) && provider(config.repos@, self.repos@, x) is None),
                ts@.len() == i,
                forall|j: int| 0 <= j < i ==> find_result(config.repos@, self.repos@, #[trigger] names@[j]@, Ok(Some(ts@[j]))),
                forall|j: int| 0 <= j < i ==> resolvable(config.repos@, self.repos@, #[trigger] names@[j]@),
            decreases names@.len() - i,
        {
            let ghost x = names@[i as int]@;
            assert(views(names@)[i as int] == x);
            assert(provider(config.repos@, self.repos@, x) is Some) by {
                if provider(config.repos@, self.repos@, x) is None {
                    assert(unresolved(config.repos@, self.repos@, views(names@)).contains(x));
                }
            }
            match self.find(config, names[i].as_str()) {
                Ok(Some(t)) => {
                    ts.push(t);
                },
                Ok(None) => {
                    return Err(PkgError::MissingFromDatabase(vec![names[i].clone()]));
                },
                Err(e) => {
                    assert(!resolvable(config.repos@, self.repos@, names@[i as int]@));
                    return Err(e);
                },
            }
            i = i + 1;
        }
        Ok(ts)
    }
}

impl BinDatabase {
    /// The install set of `requested`, each name once, resolved to
    /// artifacts. Checks in order, each before anything later happens: a
    /// repository without address; requested names held nowhere, all of
    /// them; a cycle; names of the closure held nowhere, all of them; an
    /// address that does not join.
    pub fn resolve_install_set(&self, g: &DependencyGraph, config: &Configuration, requested: &Vec<String>) -> (r: Result<Vec<TargetPackage>, PkgError>)
        ensures
            install_set_result(config.repos@, self.repos@, g.edges(), views(requested@), r),
    {
        let ghost ge = g.edges();
        let ghost req = views(requested@);
        if let Some(n) = self.unconfigured_repo(config) {
            return Err(PkgError::Config(n));
        }
        let not_found = self.unresolved_names(config, requested);
        if not_found.len() > 0 {
            return Err(PkgError::NotFound(not_found));
        }
        let names = match install_closure(g, requested) {
            Ok(names) => names,
            Err(e) => {
                assert(exists|i: int| 0 <= i < req.len() && !closure_ok(ge, #[trigger] req[i])) by {
                    let i = choose|i: int| 0 <= i < requested@.len() && !closure_ok(ge, #[trigger] requested@[i]@);
                    assert(req[i] == requested@[i]@);
                }
                return Err(e);
            },
        };
        assert(!exists|i: int| 0 <= i < req.len() && !closure_ok(ge, #[trigger] req[i])) by {
            assert forall|i: int| 0 <= i < req.len() implies closure_ok(ge, #[trigger] req[i]) by {
                assert(req[i] == requested@[i]@);
            }
        }
        let ghost l = views(names@);
        proof {
            lemma_unresolved(config.repos@, self.repos@, l);
        }
        let r = self.resolve_targets(config, &names);
        proof {
            let u = unresolved(config.repos@, self.repos@, l);
            if exists|x: Seq<char>| in_closures(ge, req, x) && #[trigger] provider(config.repos@, self.repos@, x) is None {
                let x = choose|x: Seq<char>| in_closures(ge, req, x) && #[trigger] provider(config.repos@, self.repos@, x) is None;
                assert(l.contains(x));
                assert(u.contains(x));
                assert(u.len() > 0);
            } else {
                if u.len() > 0 {
                    assert(u.contains(u[0]));
                    assert(in_closures(ge, req, u[0]));
                }
                assert(u.len() == 0);
                assert((forall|x: Seq<char>| in_closures(ge, req, x) ==> #[trigger] resolvable(config.repos@, self.repos@, x))
                    ==> forall|i: int| 0 <= i < names@.len() ==> resolvable(config.repos@, self.repos@, #[trigger] names@[i]@)) by {
                    assert forall|i: int| 0 <= i < names@.len() implies in_closures(ge, req, #[trigger] names@[i]@) by {
                        assert(l[i] == names@[i]@);
                        assert(l.contains(l[i]));
                    }
                }
                if r is Ok {
                    let ts = r->Ok_0;
                    assert forall|i: int| 0 <= i < l.len() implies find_result(config.repos@, self.repos@, #[trigger] l[i], Ok(Some(ts@[i]))) by {
                        assert(l[i] == names@[i]@);
                    }
                }
                if r is Err {
                    let e = r->Err_0;
                    let i = choose|i: int| 0 <= i < names@.len()
                        && find_result(config.repos@, self.repos@, #[trigger] names@[i]@, Err(e));
                    assert(l[i] == names@[i]@);
                    assert(l.contains(names@[i]@));
                }
            }
        }
        r
    }
}

impl TargetPackage {
    /// The artifact's file name: `<archive-name>.app`.
    pub fn file_name(&self) -> (r: String)
        ensures
            r@ == package_file(self.package),
    {
        let mut f = self.package.archive_name();
        proof { reveal_strlit(".app"); }
        f.append(".app");
        f
    }

    /// Where the artifact is downloaded to: `cache/<archive-name>.app`.
    pub fn cache_file(&self, layout: &crate::layout::Layout) -> (r: String)
        ensures
            r@ == crate::layout::joined(layout.cache_dir@, package_file(self.package)),
    {
        let f = self.file_name();
        layout.cached_artifact(f.as_str())
    }
}

impl BinRepo {
    /// No two packages share a name.
    pub open spec fn wf(&self) -> bool {
        forall|i: int, j: int| 0 <= i < j < self.applications@.len()
            ==> self.applications@[i].metadata.name@ != self.applications@[j].metadata.name@
    }

    /// An empty repository stamped with `date`.
    pub fn new(date: u64) -> (r: Self)
        ensures
            r.applications@.len() == 0,
            r.date == date,
            r.wf(),
    {
        BinRepo { applications: Vec::new(), date }
    }

    /// The graph of run-time dependencies.
    pub fn get_run_dependencies(&self) -> (g: DependencyGraph)
        ensures
            g.edges() == graph_of(self.applications@, DepKind::Run),
    {
        dependency_graph(&self.applications, DepKind::Run)
    }

    /// The graph of optional dependencies.
    pub fn get_opt_dependencies(&self) -> (g: DependencyGraph)
        ensures
            g.edges() == graph_of(self.applications@, DepKind::Optional),
    {
        dependency_graph(&self.applications, DepKind::Optional)
    }

    /// The graph of build dependencies.
    pub fn get_build_dependencies(&self) -> (g: DependencyGraph)
        ensures
            g.edges() == graph_of(self.applications@, DepKind::Build),
    {
        dependency_graph(&self.applications, DepKind::Build)
    }

    /// The graph of test dependencies.
    pub fn get_test_dependencies(&self) -> (g: DependencyGraph)
        ensures
            g.edges() == graph_of(self.applications@, DepKind::Test),
    {
        dependency_graph(&self.applications, DepKind::Test)
    }

    /// Adds a package unless one of its name is already held, and stamps
    /// the repository with `now` where that is later than its date.
    pub fn add(&mut self, app: Application, now: u64) -> (added: bool)
        ensures
            added <==> app_named(old(self).applications@, app.metadata.name@) is None,
            old(self).wf() ==> final(self).wf(),
            added ==> final(self).applications@ == old(self).applications@.push(app),
            !added ==> final(self).applications@ == old(self).applications@,
            final(self).date == if now > old(self).date { now } else { old(self).date },
    {
        let added = match app_index(&self.applications, app.metadata.name.as_str()) {
            Some(_) => false,
            None => {
                self.applications.push(app);
                true
            },
        };
        if now > self.date {
            self.date = now;
        }
        added
    }

    /// Removes the first package named `name`, and stamps the repository
    /// with `now` where that is later than its date.
    pub fn remove(&mut self, name: &str, now: u64) -> (r: Option<Application>)
        ensures
            r is None <==> app_named(old(self).applications@, name@) is None,
            old(self).wf() ==> final(self).wf(),
            r is None ==> final(self).applications@ == old(self).applications@,
            r matches Some(a) ==> exists|i: int| {
                &&& 0 <= i < old(self).applications@.len()
                &&& old(self).applications@[i] == a
                &&& a.metadata.name@ == name@
                &&& forall|j: int| 0 <= j < i ==> old(self).applications@[j].metadata.name@ != name@
                &&& final(self).applications@ == old(self).applications@.remove(i)
            },
            final(self).date == if now > old(self).date { now } else { old(self).date },
    {
        let r = match app_index(&self.applications, name) {
            Some(i) => {
                let ghost before = self.applications@;
                let a = self.applications.remove(i);
                assert(before[i as int] == a && self.applications@ == before.remove(i as int));
                assert(forall|j: int| 0 <= j < self.applications@.len()
                    ==> #[trigger] self.applications@[j] == before[if j < i { j } else { j + 1 }]);
                assert(exists|k: int| {
                    &&& 0 <= k < before.len()
                    &&& before[k] == a
                    &&& a.metadata.name@ == name@
                    &&& forall|j: int| 0 <= j < k ==> before[j].metadata.name@ != name@
                    &&& self.applications@ == before.remove(k)
                }) by {
                    assert(0 <= i < before.len());
                }
                Some(a)
            },
            None => None,
        };
        if now > self.date {
            self.date = now;
        }
        r
    }
}

proof fn lemma_app_named_index(apps: Seq<Application>, name: Seq<char>)
    requires
        app_named(apps, name) is Some,
    ensures
        exists|i: int| 0 <= i < apps.len() && apps[i] == app_named(apps, name)->Some_0 && apps[i].metadata.name@ == name,
    decreases apps.len(),
{
    if apps[0].metadata.name@ != name {
        let rest = apps.drop_first();
        lemma_app_named_index(rest, name);
        let i = choose|i: int| 0 <= i < rest.len() && rest[i] == app_named(rest, name)->Some_0 && rest[i].metadata.name@ == name;
        assert(apps[i + 1] == rest[i]);
    } else {
        assert(apps[0] == app_named(apps, name)->Some_0);
    }
}

proof fn lemma_repo_named_index(db: Seq<(String, BinRepo)>, name: Seq<char>)
    requires
        repo_named(db, name) is Some,
    ensures
        exists|k: int| 0 <= k < db.len() && db[k].1 == repo_named(db, name)->Some_0,
    decreases db.len(),
{
    if db[0].0@ != name {
        let rest = db.drop_first();
        lemma_repo_named_index(rest, name);
        let k = choose|k: int| 0 <= k < rest.len() && rest[k].1 == repo_named(rest, name)->Some_0;
        assert(db[k + 1] == rest[k]);
    }
}

proof fn lemma_provider_held(repos: Seq<RepoMeta>, db: Seq<(String, BinRepo)>, name: Seq<char>)
    requires
        provider(repos, db, name) is Some,
    ensures
        exists|k: int, j: int| 0 <= k < db.len() && 0 <= j < db[k].1.applications@.len()
            && #[trigger] db[k].1.applications@[j].metadata.name@ == name,
    decreases repos.len(),
{
    match held_by(db, repos[0].name@, name) {
        Some(a) => {
            lemma_repo_named_index(db, repos[0].name@);
            let r = repo_named(db, repos[0].name@)->Some_0;
            let k = choose|k: int| 0 <= k < db.len() && db[k].1 == r;
            lemma_app_named_index(r.applications@, name);
            let j = choose|j: int| 0 <= j < r.applications@.len() && r.applications@[j] == app_named(r.applications@, name)->Some_0
                && r.applications@[j].metadata.name@ == name;
            assert(db[k].1.applications@[j].metadata.name@ == name);
        },
        None => {
            lemma_provider_held(repos.drop_first(), db, name);
        },
    }
}

proof fn lemma_named_app_is_node(apps: Seq<Application>, name: Seq<char>, kind: DepKind, i: int)
    requires
        0 <= i < apps.len(),
        apps[i].metadata.name@ == name,
    ensures
        graph_of(apps, kind).contains_key(name),
    decreases apps.len(),
{
    if i < apps.len() - 1 {
        lemma_named_app_is_node(apps.drop_last(), name, kind, i);
    }
    let _ = registered(graph_of(apps.drop_last(), kind), apps.last().metadata.name@, apps.last().edges(kind));
}

proof fn lemma_held_is_in_all_apps(db: Seq<(String, BinRepo)>, k: int, j: int)
    requires
        0 <= k < db.len(),
        0 <= j < db[k].1.applications@.len(),
    ensures
        exists|t: int| 0 <= t < all_apps(db).len() && all_apps(db)[t] == db[k].1.applications@[j],
    decreases db.len(),
{
    let rest = db.drop_last();
    if k < db.len() - 1 {
        lemma_held_is_in_all_apps(rest, k, j);
        let t = choose|t: int| 0 <= t < all_apps(rest).len() && all_apps(rest)[t] == rest[k].1.applications@[j];
        assert(all_apps(db)[t] == all_apps(rest)[t]);
    } else {
        assert(all_apps(db)[all_apps(rest).len() + j] == db[k].1.applications@[j]);
    }
}

/// A name that some configured repository holds is a node of the
/// database's graph.
proof fn lemma_provided_is_node(repos: Seq<RepoMeta>, db: Seq<(String, BinRepo)>, name: Seq<char>, kind: DepKind)
    requires
        provider(repos, db, name) is Some,
    ensures
        graph_of(all_apps(db), kind).contains_key(name),
{
    lemma_provider_held(repos, db, name);
    let (k, j) = choose|k: int, j: int| 0 <= k < db.len() && 0 <= j < db[k].1.applications@.len()
        && #[trigger] db[k].1.applications@[j].metadata.name@ == name;
    lemma_held_is_in_all_apps(db, k, j);
    let t = choose|t: int| 0 <= t < all_apps(db).len() && all_apps(db)[t] == db[k].1.applications@[j];
    lemma_named_app_is_node(all_apps(db), name, kind, t);
}

/// Resolving an install set over the database's own run-time graph never
/// hides a cycle: where one is reachable from a requested name the result is
/// an error, and once the configuration and the requested names check out
/// it is `CycleDetected` for a requested name that reaches a cycle.
pub proof fn lemma_cycle_reported(
    repos: Seq<RepoMeta>,
    db: Seq<(String, BinRepo)>,
    requested: Seq<Seq<char>>,
    r: Result<Vec<TargetPackage>, PkgError>,
)
    requires
        install_set_result(repos, db, graph_of(all_apps(db), DepKind::Run), requested, r),
        exists|i: int| 0 <= i < requested.len() && cycle_reachable(graph_of(all_apps(db), DepKind::Run), #[trigger] requested[i]),
    ensures
        r is Err,
        first_unconfigured(db, repos) is None && unresolved(repos, db, requested).len() == 0
            ==> (r matches Err(PkgError::CycleDetected(n)) && exists|i: int| 0 <= i < requested.len()
                && requested[i] == n@ && cycle_reachable(graph_of(all_apps(db), DepKind::Run), #[trigger] requested[i])),
{
    let g = graph_of(all_apps(db), DepKind::Run);
    let i = choose|i: int| 0 <= i < requested.len() && cycle_reachable(g, #[trigger] requested[i]);
    assert(!closure_ok(g, requested[i]));
    if first_unconfigured(db, repos) is None && unresolved(repos, db, requested).len() == 0 {
        lemma_unresolved(repos, db, requested);
        let e = r->Err_0;
        let i0 = choose|i0: int| {
            &&& 0 <= i0 < requested.len()
            &&& forall|j: int| 0 <= j < i0 ==> closure_ok(g, #[trigger] requested[j])
            &&& !closure_ok(g, requested[i0])
            &&& if g.contains_key(requested[i0]) {
                e matches PkgError::CycleDetected(n) && n@ == requested[i0]
            } else {
                e matches PkgError::NotFound(l) && views(l@) == seq![requested[i0]]
            }
        };
        assert(requested.contains(requested[i0]));
        if provider(repos, db, requested[i0]) is None {
            assert(unresolved(repos, db, requested).contains(requested[i0]));
        }
        lemma_provided_is_node(repos, db, requested[i0], DepKind::Run);
    }
}

} // verus!
