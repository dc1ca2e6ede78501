//! Source repositories: build recipes keyed by package name.
use vstd::prelude::*;
use crate::build_file::BuildFile;
use crate::database::{recipe_index, recipe_named};
use crate::dependency::DepKind;
use crate::graph::{dependency_graph_of_recipes, recipe_graph_of, DependencyGraph};

verus! {

#[derive(Clone, Debug)]
pub struct SourceRepo {
    pub applications: Vec<BuildFile>,
    /// Seconds since the UNIX epoch of the last change.
    pub date: u64,
}

#[derive(Clone, Debug)]
pub struct SourceDatabase {
    /// Each repository under the name it is configured with.
    pub repos: Vec<(String, SourceRepo)>,
}

impl SourceDatabase {
    /// A database without repositories.
    pub fn new() -> (r: Self)
        ensures
            r.repos@.len() == 0,
    {
        SourceDatabase { repos: Vec::new() }
    }
}

impl SourceRepo {
    /// No two recipes share a name.
    pub open spec fn wf(&self) -> bool {
        forall|i: int, j: int| 0 <= i < j < self.applications@.len()
            ==> self.applications@[i].metadata.name@ != self.applications@[j].metadata.name@
    }

    /// An empty repository stamped with `date`.
    pub fn new(date: u64) -> (r: Self)
        ensures
            r.applications@.len() == 0,
            r.date == date,
            r.wf(),
    {
        SourceRepo { applications: Vec::new(), date }
    }

    /// Adds a recipe unless one of its name is already held, and stamps the
    /// repository with `now` where that is later than its date.
    pub fn add(&mut self, recipe: BuildFile, now: u64) -> (added: bool)
        ensures
            added <==> recipe_named(old(self).applications@, recipe.metadata.name@) is None,
            old(self).wf() ==> final(self).wf(),
            added ==> final(self).applications@ == old(self).applications@.push(recipe),
            !added ==> final(self).applications@ == old(self).applications@,
            final(self).date == if now > old(self).date { now } else { old(self).date },
    {
        let added = match recipe_index(&self.applications, recipe.metadata.name.as_str()) {
            Some(_) => false,
            None => {
                self.applications.push(recipe);
                true
            },
        };
        if now > self.date {
            self.date = now;
        }
        added
    }

    /// Removes the first recipe named `name`, and stamps the repository
    /// with `now` where that is later than its date.
    pub fn remove(&mut self, name: &str, now: u64) -> (r: Option<BuildFile>)
        ensures
            r is None <==> recipe_named(old(self).applications@, name@) is None,
            old(self).wf() ==> final(self).wf(),
            r is None ==> final(self).applications@ == old(self).applications@,
            r matches Some(b) ==> exists|i: int| {
                &&& 0 <= i < old(self).applications@.len()
                &&& old(self).applications@[i] == b
                &&& b.metadata.name@ == name@
                &&& forall|j: int| 0 <= j < i ==> old(self).applications@[j].metadata.name@ != name@
                &&& final(self).applications@ == old(self).applications@.remove(i)
            },
            final(self).date == if now > old(self).date { now } else { old(self).date },
    {
        let r = match recipe_index(&self.applications, name) {
            Some(i) => {
                let ghost before = self.applications@;
                let b = self.applications.remove(i);
                assert(before[i as int] == b && self.applications@ == before.remove(i as int));
                assert(forall|j: int| 0 <= j < self.applications@.len()
                    ==> #[trigger] self.applications@[j] == before[if j < i { j } else { j + 1 }]);
                assert(exists|k: int| {
                    &&& 0 <= k < before.len()
                    &&& before[k] == b
                    &&& b.metadata.name@ == name@
                    &&& forall|j: int| 0 <= j < k ==> before[j].metadata.name@ != name@
                    &&& self.applications@ == before.remove(k)
                }) by {
                    assert(0 <= i < before.len());
                }
                Some(b)
            },
            None => None,
        };
        if now > self.date {
            self.date = now;
        }
        r
    }

    /// The graph of run-time dependencies.
    pub fn get_run_dependencies(&self) -> (g: DependencyGraph)
        ensures
            g.edges() == recipe_graph_of(self.applications@, DepKind::Run),
    {
        dependency_graph_of_recipes(&self.applications, DepKind::Run)
    }

    /// The graph of optional dependencies.
    pub fn get_opt_dependencies(&self) -> (g: DependencyGraph)
        ensures
            g.edges() == recipe_graph_of(self.applications@, DepKind::Optional),
    {
        dependency_graph_of_recipes(&self.applications, DepKind::Optional)
    }

    /// The graph of build dependencies.
    pub fn get_build_dependencies(&self) -> (g: DependencyGraph)
        ensures
            g.edges() == recipe_graph_of(self.applications@, DepKind::Build),
    {
        dependency_graph_of_recipes(&self.applications, DepKind::Build)
    }

    /// The graph of test dependencies.
    pub fn get_test_dependencies(&self) -> (g: DependencyGraph)
        ensures
            g.edges() == recipe_graph_of(self.applications@, DepKind::Test),
    {
        dependency_graph_of_recipes(&self.applications, DepKind::Test)
    }
}

} // verus!
