//! Simple package collections, and the flattening of nested arrays.
use vstd::prelude::*;
use crate::application::Application;
use crate::bin_database::{app_index, app_named};
use crate::build_file::BuildFile;
use crate::dependency::{list_names, DepKind};
use crate::error::PkgError;
use crate::graph::{closure_of, cycle_reachable, dependency_graph_of_recipes, reachable_set, recipe_graph_of, registered, GraphError};
use crate::text::{contains_name, lemma_push_contains, lemma_push_no_duplicates};
use crate::text::views;

verus! {

pub struct LocalDB {
    pub applications: Vec<Application>,
}

pub struct OnlineDB {
    pub applications: Vec<Application>,
}

pub struct RegistrDB {
    pub applications: Vec<Application>,
}

pub struct BuildFileDB {
    pub pkgbuilds: Vec<BuildFile>,
}

/// The first recipe named `name`.
pub open spec fn recipe_named(bs: Seq<BuildFile>, name: Seq<char>) -> Option<BuildFile>
    decreases bs.len(),
{
    if bs.len() == 0 {
        None
    } else if bs[0].metadata.name@ == name {
        Some(bs[0])
    } else {
        recipe_named(bs.drop_first(), name)
    }
}

/// The run-time dependencies a recipe lists.
pub open spec fn recipe_run_deps(b: BuildFile) -> Seq<Seq<char>> {
    match b.dependencies {
        Some(d) => d.edges(DepKind::Run),
        None => Seq::empty(),
    }
}

/// The position of the first recipe named `name`.
pub fn recipe_index(bs: &Vec<BuildFile>, name: &str) -> (r: Option<usize>)
    ensures
        r is None <==> recipe_named(bs@, name@) is None,
        r is None <==> forall|j: int| 0 <= j < bs@.len() ==> bs@[j].metadata.name@ != name@,
        r matches Some(i) ==> (i < bs@.len() && recipe_named(bs@, name@) == Some(bs@[i as int])
            && bs@[i as int].metadata.name@ == name@
            && forall|j: int| 0 <= j < i ==> bs@[j].metadata.name@ != name@),
{
    let mut i: usize = 0;
    assert(bs@.subrange(0, bs@.len() as int) =~= bs@);
    while i < bs.len()
        invariant
            i <= bs@.len(),
            recipe_named(bs@, name@) == recipe_named(bs@.subrange(i as int, bs@.len() as int), name@),
            forall|j: int| 0 <= j < i ==> bs@[j].metadata.name@ != name@,
        decreases bs@.len() - i,
    {
        let ghost rest = bs@.subrange(i as int, bs@.len() as int);
        assert(rest.drop_first() =~= bs@.subrange(i as int + 1, bs@.len() as int));
        assert(rest[0] == bs@[i as int]);
        if crate::text::same_text(bs[i].metadata.name.as_str(), name) {
            return Some(i);
        }
        i = i + 1;
    }
    None
}

impl RegistrDB {
    /// The first package named `name`.
    pub fn find_by_name(&self, name: String) -> (r: Option<&Application>)
        ensures
            r is None <==> app_named(self.applications@, name@) is None,
            r matches Some(a) ==> app_named(self.applications@, name@) == Some(*a),
    {
        match app_index(&self.applications, name.as_str()) {
            Some(i) => Some(&self.applications[i]),
            None => None,
        }
    }
}

impl BuildFileDB {
    /// The first recipe named `name`.
    pub fn find_by_name(&self, name: String) -> (r: Option<&BuildFile>)
        ensures
            r is None <==> recipe_named(self.pkgbuilds@, name@) is None,
            r matches Some(b) ==> recipe_named(self.pkgbuilds@, name@) == Some(*b),
    {
        match recipe_index(&self.pkgbuilds, name.as_str()) {
            Some(i) => Some(&self.pkgbuilds[i]),
            None => None,
        }
    }

    /// The names of `initial` (none where absent), each once in the order
    /// first met, followed by every other name that the recipe named
    /// `name` reaches by run-time dependency edges among these recipes,
    /// each once. A cycle reachable from it is an error.
    pub fn find_dependencies(&self, name: String, initial: Option<Vec<String>>) -> (r: Result<Vec<String>, PkgError>)
        ensures
            recipe_named(self.pkgbuilds@, name@) is None ==> (r matches Ok(v) && views(v@) == distinct(list_names(initial))),
            recipe_named(self.pkgbuilds@, name@) is Some
                && cycle_reachable(recipe_graph_of(self.pkgbuilds@, DepKind::Run), name@)
                ==> (r matches Err(PkgError::CycleDetected(n)) && n@ == name@),
            recipe_named(self.pkgbuilds@, name@) is Some
                && !cycle_reachable(recipe_graph_of(self.pkgbuilds@, DepKind::Run), name@)
                ==> (r matches Ok(v) && transitive_result(
                    views(v@), list_names(initial), reachable_set(recipe_graph_of(self.pkgbuilds@, DepKind::Run), name@), name@)),
            r matches Ok(v) ==> views(v@).no_duplicates(),
    {
        let given: Vec<String> = match initial {
            Some(v) => v,
            None => Vec::new(),
        };
        let ghost init = views(given@);
        assert(init == list_names(initial));
        let mut data: Vec<String> = Vec::new();
        let mut k: usize = 0;
        while k < given.len()
            invariant
                k <= given@.len(),
                init == views(given@),
                views(data@) == distinct(init.subrange(0, k as int)),
            decreases given@.len() - k,
        {
            let ghost p = init.subrange(0, k as int + 1);
            assert(p.drop_last() =~= init.subrange(0, k as int));
            assert(p.last() == given@[k as int]@);
            proof { lemma_distinct(init.subrange(0, k as int)); }
            if !contains_name(&data, given[k].as_str()) {
                data.push(given[k].clone());
                assert(views(data@) =~= distinct(init.subrange(0, k as int)).push(given@[k as int]@));
            }
            k = k + 1;
        }
        assert(init.subrange(0, given@.len() as int) =~= init);
        let ghost d = views(data@);
        proof { lemma_distinct(init); }
        if self.find_by_name(name.clone()).is_none() {
            return Ok(data);
        }
        let g = dependency_graph_of_recipes(&self.pkgbuilds, DepKind::Run);
        proof {
            lemma_recipe_is_node(self.pkgbuilds@, name@, DepKind::Run);
        }
        let c = match closure_of(&g, &name) {
            Ok(c) => c,
            Err(GraphError::CycleDetected) => {
                return Err(PkgError::CycleDetected(name));
            },
            Err(GraphError::NoSuchNode) => {
                return Err(PkgError::NotFound(vec![name]));
            },
        };
        let ghost reach = reachable_set(g.edges(), name@);
        let mut j: usize = 0;
        assert(views(data@).subrange(0, d.len() as int) =~= d);
        while j < c.len()
            invariant
                j <= c@.len(),
                views(c@).no_duplicates(),
                views(c@).to_set() == reach,
                d == distinct(init),
                d.no_duplicates(),
                forall|y: Seq<char>| #[trigger] d.contains(y) <==> init.contains(y),
                views(data@).len() >= d.len(),
                views(data@).subrange(0, d.len() as int) == d,
                views(data@).no_duplicates(),
                forall|x: Seq<char>| #[trigger] views(data@).subrange(d.len() as int, views(data@).len() as int).contains(x)
                    <==> (views(c@).subrange(0, j as int).contains(x) && x != name@ && !init.contains(x)),
            decreases c@.len() - j,
        {
            let ghost prev = views(data@);
            let ghost extra = prev.subrange(d.len() as int, prev.len() as int);
            let ghost x = c@[j as int]@;
            let ghost s1 = views(c@).subrange(0, j as int);
            assert(views(c@).subrange(0, j as int + 1) =~= s1.push(x));
            proof { lemma_push_contains(s1, x); }
            assert(prev =~= d + extra);
            assert forall|y: Seq<char>| prev.contains(y) <==> (d.contains(y) || extra.contains(y)) by {
                if prev.contains(y) {
                    let q = choose|q: int| 0 <= q < prev.len() && prev[q] == y;
                    if q < d.len() { assert(d[q] == y); } else { assert(extra[q - d.len()] == y); }
                }
                if d.contains(y) {
                    let q = choose|q: int| 0 <= q < d.len() && d[q] == y;
                    assert(prev[q] == y);
                }
                if extra.contains(y) {
                    let q = choose|q: int| 0 <= q < extra.len() && extra[q] == y;
                    assert(prev[q + d.len()] == y);
                }
            }
            let is_self = c[j] == name;
            if !is_self && !contains_name(&data, c[j].as_str()) {
                data.push(c[j].clone());
                proof {
                    let now = views(data@);
                    assert(now =~= prev.push(x));
                    assert(now.subrange(0, d.len() as int) =~= d);
                    assert(now.subrange(d.len() as int, now.len() as int) =~= extra.push(x));
                    lemma_push_contains(extra, x);
                    lemma_push_no_duplicates(prev, x);
                }
            } else {
                proof {
                    assert(views(data@) == prev);
                    if !is_self {
                        assert(prev.contains(x));
                    }
                }
            }
            j = j + 1;
        }
        proof {
            assert(views(c@).subrange(0, c@.len() as int) =~= views(c@));
            assert forall|x: Seq<char>| views(c@).contains(x) <==> reach.contains(x) by {
                assert(views(c@).to_set().contains(x) == views(c@).contains(x));
            }
        }
        Ok(data)
    }
}

/// The names of `s`, each once, in the order first met.
pub open spec fn distinct(s: Seq<Seq<char>>) -> Seq<Seq<char>>
    decreases s.len(),
{
    if s.len() == 0 {
        Seq::empty()
    } else if s.drop_last().contains(s.last()) {
        distinct(s.drop_last())
    } else {
        distinct(s.drop_last()).push(s.last())
    }
}

proof fn lemma_distinct(s: Seq<Seq<char>>)
    ensures
        forall|x: Seq<char>| #[trigger] distinct(s).contains(x) <==> s.contains(x),
        distinct(s).no_duplicates(),
    decreases s.len(),
{
    if s.len() > 0 {
        let rest = s.drop_last();
        lemma_distinct(rest);
        assert(s =~= rest.push(s.last()));
        lemma_push_contains(rest, s.last());
        lemma_push_contains(distinct(rest), s.last());
        if !rest.contains(s.last()) {
            lemma_push_no_duplicates(distinct(rest), s.last());
        }
    }
}

/// `v` is the names of `init`, each once, followed by every name of
/// `reach` other than `name` and those of `init`, with no name twice.
pub open spec fn transitive_result(v: Seq<Seq<char>>, init: Seq<Seq<char>>, reach: Set<Seq<char>>, name: Seq<char>) -> bool {
    let d = distinct(init);
    &&& v.len() >= d.len()
    &&& v.subrange(0, d.len() as int) == d
    &&& v.no_duplicates()
    &&& forall|x: Seq<char>| #[trigger] v.subrange(d.len() as int, v.len() as int).contains(x)
        <==> (reach.contains(x) && x != name && !init.contains(x))
}

/// A recipe's name is a node of the graph built over the recipes.
proof fn lemma_recipe_is_node(bs: Seq<BuildFile>, name: Seq<char>, kind: DepKind)
    ensures
        recipe_named(bs, name) is Some ==> recipe_graph_of(bs, kind).contains_key(name),
{
    if recipe_named(bs, name) is Some {
        lemma_recipe_named_index(bs, name);
        let i = choose|i: int| 0 <= i < bs.len() && bs[i].metadata.name@ == name;
        lemma_index_is_node(bs, name, kind, i);
    }
}

proof fn lemma_recipe_named_index(bs: Seq<BuildFile>, name: Seq<char>)
    requires
        recipe_named(bs, name) is Some,
    ensures
        exists|i: int| 0 <= i < bs.len() && bs[i].metadata.name@ == name,
    decreases bs.len(),
{
    if bs[0].metadata.name@ != name {
        lemma_recipe_named_index(bs.drop_first(), name);
        let i = choose|i: int| 0 <= i < bs.drop_first().len() && bs.drop_first()[i].metadata.name@ == name;
        assert(bs[i + 1].metadata.name@ == name);
    }
}

proof fn lemma_index_is_node(bs: Seq<BuildFile>, name: Seq<char>, kind: DepKind, i: int)
    requires
        0 <= i < bs.len(),
        bs[i].metadata.name@ == name,
    ensures
        recipe_graph_of(bs, kind).contains_key(name),
    decreases bs.len(),
{
    let m = recipe_graph_of(bs.drop_last(), kind);
    if i < bs.len() - 1 {
        lemma_index_is_node(bs.drop_last(), name, kind, i);
    }
    let _ = registered(m, bs.last().metadata.name@, crate::graph::recipe_edges(bs.last(), kind));
}

/// An array whose items are numbers or arrays, to any depth.
pub enum ArbitrarilyNestedArray<T> {
    Array(Vec<ArbitrarilyNestedArray<T>>),
    Integer(T),
}

/// The numbers of a nested array, left to right.
pub open spec fn flat<T>(a: ArbitrarilyNestedArray<T>) -> Seq<T>
    decreases a, 0nat,
{
    match a {
        ArbitrarilyNestedArray::Integer(x) => seq![x],
        ArbitrarilyNestedArray::Array(v) => flat_items(v, v.len() as int),
    }
}

/// The numbers of the first `n` items of an array, left to right.
pub open spec fn flat_items<T>(v: Vec<ArbitrarilyNestedArray<T>>, n: int) -> Seq<T>
    decreases v, n,
{
    if n <= 0 || n > v.len() {
        Seq::empty()
    } else {
        flat_items(v, n - 1) + flat(v[n - 1])
    }
}

/// Flattens a nested array into the sequence of its numbers.
pub fn flatten<T: Copy>(arr: &ArbitrarilyNestedArray<T>) -> (r: Vec<T>)
    ensures
        r@ == flat(*arr),
    decreases arr,
{
    match arr {
        ArbitrarilyNestedArray::Integer(x) => vec![*x],
        ArbitrarilyNestedArray::Array(v) => {
            let mut flat_v: Vec<T> = Vec::new();
            let mut i: usize = 0;
            while i < v.len()
                invariant
                    i <= v@.len(),
                    *arr == ArbitrarilyNestedArray::Array(*v),
                    flat_v@ == flat_items(*v, i as int),
                decreases v@.len() - i,
            {
                proof {
                    broadcast use vstd::std_specs::vec::axiom_vec_index_decreases;
                    assert(decreases_to!(*v => v[i as int]));
                    assert(decreases_to!(*arr => (*arr)->Array_0));
                    assert((*arr)->Array_0 == *v);
                    assert(decreases_to!(*arr => v[i as int]));
                }
                let flat_a = flatten(&v[i]);
                let ghost before = flat_v@;
                let mut j: usize = 0;
                while j < flat_a.len()
                    invariant
                        j <= flat_a@.len(),
                        flat_v@ == before + flat_a@.subrange(0, j as int),
                    decreases flat_a@.len() - j,
                {
                    flat_v.push(flat_a[j]);
                    assert(flat_v@ =~= before + flat_a@.subrange(0, j as int + 1));
                    j = j + 1;
                }
                assert(flat_a@.subrange(0, flat_a@.len() as int) =~= flat_a@);
                i = i + 1;
            }
            flat_v
        },
    }
}

} // verus!
