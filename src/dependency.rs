//! The four independent kinds of dependency a package may declare.
use vstd::prelude::*;
use crate::text::{contains_name, copy_strings, views};

verus! {

/// A kind of dependency edge.
#[derive(Clone, Copy, Debug, PartialEq, Eq, Structural)]
pub enum DepKind {
    Build,
    Optional,
    Run,
    Test,
}

#[derive(Clone, Debug)]
pub struct Dependency {
    pub build_dependencies: Option<Vec<String>>,
    pub opt_dependencies: Option<Vec<String>>,
    pub run_dependencies: Option<Vec<String>>,
    pub test_dependencies: Option<Vec<String>>,
}

/// The names of a list that may be absent; an absent list has no names.
pub open spec fn list_names(o: Option<Vec<String>>) -> Seq<Seq<char>> {
    match o {
        Some(v) => views(v@),
        None => Seq::empty(),
    }
}

/// Two blocks declare the same kinds, with the same names.
pub open spec fn same_lists(x: Dependency, y: Dependency) -> bool {
    forall|k: DepKind| #[trigger] x.edges(k) == y.edges(k) && (x.spec_list(k) is Some <==> y.spec_list(k) is Some)
}

/// Two dependency blocks, each maybe absent, are the same.
pub open spec fn same_dependencies(x: Option<Dependency>, y: Option<Dependency>) -> bool {
    match (x, y) {
        (Some(a), Some(b)) => same_lists(a, b),
        (None, None) => true,
        _ => false,
    }
}

/// A copy of a dependency block that may be absent.
pub fn copy_dependencies(o: &Option<Dependency>) -> (r: Option<Dependency>)
    ensures
        same_dependencies(r, *o),
{
    match o {
        Some(d) => Some(d.duplicate()),
        None => None,
    }
}

/// The names of `deps` that are not in `installed`, in their order.
pub open spec fn missing(deps: Seq<Seq<char>>, installed: Seq<Seq<char>>) -> Seq<Seq<char>>
    decreases deps.len(),
{
    if deps.len() == 0 {
        Seq::empty()
    } else {
        let rest = missing(deps.drop_last(), installed);
        if installed.contains(deps.last()) {
            rest
        } else {
            rest.push(deps.last())
        }
    }
}

/// A copy of a list that may be absent.
pub fn copy_list(o: &Option<Vec<String>>) -> (r: Option<Vec<String>>)
    ensures
        r is Some == o is Some,
        list_names(r) == list_names(*o),
{
    match o {
        Some(v) => Some(copy_strings(v)),
        None => None,
    }
}

/// The names of `deps` that are not in `installed`.
pub fn missing_names(deps: &Vec<String>, installed: &Vec<String>) -> (r: Vec<String>)
    ensures
        views(r@) == missing(views(deps@), views(installed@)),
{
    let mut r: Vec<String> = Vec::new();
    let mut i: usize = 0;
    while i < deps.len()
        invariant
            i <= deps@.len(),
            views(r@) == missing(views(deps@.subrange(0, i as int)), views(installed@)),
        decreases deps@.len() - i,
    {
        let ghost before = views(deps@.subrange(0, i as int));
        let ghost after = views(deps@.subrange(0, i as int + 1));
        assert(after.drop_last() =~= before);
        assert(after.last() == deps@[i as int]@);
        if !contains_name(installed, deps[i].as_str()) {
            r.push(deps[i].clone());
            assert(views(r@) =~= missing(before, views(installed@)).push(deps@[i as int]@));
        }
        i = i + 1;
    }
    assert(deps@.subrange(0, deps@.len() as int) =~= deps@);
    r
}

impl Dependency {
    /// The list of the given kind, if declared.
    pub open spec fn spec_list(&self, kind: DepKind) -> Option<Vec<String>> {
        match kind {
            DepKind::Build => self.build_dependencies,
            DepKind::Optional => self.opt_dependencies,
            DepKind::Run => self.run_dependencies,
            DepKind::Test => self.test_dependencies,
        }
    }

    /// The names this block lists for the given kind.
    pub open spec fn edges(&self, kind: DepKind) -> Seq<Seq<char>> {
        list_names(self.spec_list(kind))
    }

    /// A block that declares no dependency of any kind.
    pub fn new() -> (r: Self)
        ensures
            r.build_dependencies is None,
            r.opt_dependencies is None,
            r.run_dependencies is None,
            r.test_dependencies is None,
    {
        Dependency {
            build_dependencies: None,
            opt_dependencies: None,
            run_dependencies: None,
            test_dependencies: None,
        }
    }

    /// The list of the given kind, if declared.
    pub fn list(&self, kind: DepKind) -> (r: &Option<Vec<String>>)
        ensures
            *r == self.spec_list(kind),
    {
        match kind {
            DepKind::Build => &self.build_dependencies,
            DepKind::Optional => &self.opt_dependencies,
            DepKind::Run => &self.run_dependencies,
            DepKind::Test => &self.test_dependencies,
        }
    }

    /// A copy that lists the same names for every kind.
    pub fn duplicate(&self) -> (r: Self)
        ensures
            same_lists(r, *self),
    {
        Dependency {
            build_dependencies: copy_list(&self.build_dependencies),
            opt_dependencies: copy_list(&self.opt_dependencies),
            run_dependencies: copy_list(&self.run_dependencies),
            test_dependencies: copy_list(&self.test_dependencies),
        }
    }

    /// Checks that every dependency of the kind is among the installed
    /// packages; the error lists those that are not.
    pub fn check_dependencies(&self, kind: DepKind, installed: &Vec<String>) -> (r: Result<(), Vec<String>>)
        ensures
            r is Ok <==> missing(self.edges(kind), views(installed@)).len() == 0,
            r matches Err(m) ==> views(m@) == missing(self.edges(kind), views(installed@)),
    {
        match self.list(kind) {
            Some(deps) => {
                let m = missing_names(deps, installed);
                if m.len() == 0 {
                    Ok(())
                } else {
                    Err(m)
                }
            }
            None => Ok(()),
        }
    }

    /// Checks the build dependencies against the installed packages.
    pub fn check_build_dependencies(&self, installed: &Vec<String>) -> (r: Result<(), Vec<String>>)
        ensures
            r is Ok <==> missing(self.edges(DepKind::Build), views(installed@)).len() == 0,
            r matches Err(m) ==> views(m@) == missing(self.edges(DepKind::Build), views(installed@)),
    {
        self.check_dependencies(DepKind::Build, installed)
    }

    /// Checks the optional dependencies against the installed packages.
    pub fn check_opt_dependencies(&self, installed: &Vec<String>) -> (r: Result<(), Vec<String>>)
        ensures
            r is Ok <==> missing(self.edges(DepKind::Optional), views(installed@)).len() == 0,
            r matches Err(m) ==> views(m@) == missing(self.edges(DepKind::Optional), views(installed@)),
    {
        self.check_dependencies(DepKind::Optional, installed)
    }

    /// Checks the run-time dependencies against the installed packages.
    pub fn check_run_dependencies(&self, installed: &Vec<String>) -> (r: Result<(), Vec<String>>)
        ensures
            r is Ok <==> missing(self.edges(DepKind::Run), views(installed@)).len() == 0,
            r matches Err(m) ==> views(m@) == missing(self.edges(DepKind::Run), views(installed@)),
    {
        self.check_dependencies(DepKind::Run, installed)
    }

    /// Checks the test dependencies against the installed packages.
    pub fn check_test_dependencies(&self, installed: &Vec<String>) -> (r: Result<(), Vec<String>>)
        ensures
            r is Ok <==> missing(self.edges(DepKind::Test), views(installed@)).len() == 0,
            r matches Err(m) ==> views(m@) == missing(self.edges(DepKind::Test), views(installed@)),
    {
        self.check_dependencies(DepKind::Test, installed)
    }
}

} // verus!
