//! Directed depends-on graphs over package names, one per dependency kind,
//! held in solvent's `DepGraph`.
use vstd::prelude::*;
use solvent::{DepGraph, SolventError};
use crate::application::Application;
use crate::bin_database::BinRepo;
use crate::build_file::BuildFile;
use crate::dependency::DepKind;
use crate::error::PkgError;
use crate::text::{contains_name, copy_strings, lemma_push_contains, lemma_push_no_duplicates, views};

verus! {

/// solvent's `DepGraph`, opaque here: what it holds is `graph_edges`.
#[verifier::external_type_specification]
#[verifier::external_body]
#[verifier::reject_recursive_types(T)]
pub struct ExDepGraph<T: Eq>(DepGraph<T>);

/// What a graph holds: each registered node, mapped to the nodes it
/// depends on.
pub uninterp spec fn graph_edges(g: DepGraph<String>) -> Map<Seq<char>, Set<Seq<char>>>;

/// The nodes a graph counts as already satisfied, which its walks skip.
pub uninterp spec fn graph_satisfied(g: DepGraph<String>) -> Set<Seq<char>>;

/// A depends-on graph. Only this module builds one, so no node of it is
/// ever marked satisfied and every walk sees the whole graph.
pub struct DependencyGraph {
    graph: DepGraph<String>,
}

impl DependencyGraph {
    #[verifier::type_invariant]
    closed spec fn nothing_satisfied(self) -> bool {
        graph_satisfied(self.graph) == Set::<Seq<char>>::empty()
    }

    /// Each node of the graph, mapped to the nodes it depends on.
    pub closed spec fn edges(self) -> Map<Seq<char>, Set<Seq<char>>> {
        graph_edges(self.graph)
    }
}

/// Why a closure could not be computed.
#[derive(Clone, Copy, Debug, PartialEq, Eq, Structural)]
pub enum GraphError {
    CycleDetected,
    NoSuchNode,
}

/// A graph without nodes.
pub open spec fn empty_graph() -> Map<Seq<char>, Set<Seq<char>>> {
    Map::empty()
}

/// The effect of registering `node` with the dependencies `deps`: every name
/// becomes a node, and `node` gains an edge to each of `deps`.
pub open spec fn registered(
    m: Map<Seq<char>, Set<Seq<char>>>,
    node: Seq<char>,
    deps: Seq<Seq<char>>,
) -> Map<Seq<char>, Set<Seq<char>>> {
    let base = Map::new(
        |k: Seq<char>| m.contains_key(k) || k == node || deps.contains(k),
        |k: Seq<char>| if m.contains_key(k) { m[k] } else { Set::empty() },
    );
    base.insert(node, base[node].union(deps.to_set()))
}

/// A walk along depends-on edges.
pub open spec fn is_path(g: Map<Seq<char>, Set<Seq<char>>>, p: Seq<Seq<char>>) -> bool {
    &&& p.len() >= 1
    &&& g.contains_key(p[0])
    &&& forall|i: int| 0 <= i < p.len() - 1 ==> g.contains_key(p[i]) && #[trigger] g[p[i]].contains(p[i + 1])
}

/// `b` can be reached from `a` (every node reaches itself).
pub open spec fn reaches(g: Map<Seq<char>, Set<Seq<char>>>, a: Seq<char>, b: Seq<char>) -> bool {
    exists|p: Seq<Seq<char>>| #[trigger] is_path(g, p) && p[0] == a && p.last() == b
}

/// The names reachable from `a`, `a` included.
pub open spec fn reachable_set(g: Map<Seq<char>, Set<Seq<char>>>, a: Seq<char>) -> Set<Seq<char>> {
    Set::new(|b: Seq<char>| reaches(g, a, b))
}

/// Some node reachable from `a` lies on a cycle.
pub open spec fn cycle_reachable(g: Map<Seq<char>, Set<Seq<char>>>, a: Seq<char>) -> bool {
    exists|p: Seq<Seq<char>>| #[trigger] is_path(g, p) && p[0] == a && p.len() >= 2
        && exists|j: int| 0 <= j < p.len() - 1 && p[j] == p.last()
}

/// Relies on solvent's `DepGraph::new`: a graph with no node.
#[verifier::external_body]
fn new_graph() -> (g: DepGraph<String>)
    ensures
        graph_edges(g) == empty_graph(),
        graph_satisfied(g) == Set::<Seq<char>>::empty(),
{
    DepGraph::new()
}

/// Relies on solvent's `DepGraph::register_dependencies`: registers `node`
/// and each of `deps` as nodes and adds an edge from `node` to each of
/// `deps`; no node becomes satisfied.
#[verifier::external_body]
fn register_dependencies(g: &mut DepGraph<String>, node: String, deps: Vec<String>)
    ensures
        graph_edges(*final(g)) == registered(graph_edges(*old(g)), node@, views(deps@)),
        graph_satisfied(*final(g)) == graph_satisfied(*old(g)),
{
    g.register_dependencies(node, deps)
}

/// Relies on solvent's `DepGraph::dependencies_of` and its iterator: on a
/// graph with no satisfied node, the nodes reachable from `target`, each
/// once, until a cycle is met.
#[verifier::external_body]
fn solvent_dependencies_of(g: &DepGraph<String>, target: &String) -> (r: Result<Vec<String>, GraphError>)
    requires
        graph_satisfied(*g) == Set::<Seq<char>>::empty(),
    ensures
        r matches Err(GraphError::NoSuchNode) <==> !graph_edges(*g).contains_key(target@),
        graph_edges(*g).contains_key(target@) ==> (r is Ok <==> !cycle_reachable(graph_edges(*g), target@)),
        r matches Ok(v) ==> views(v@).no_duplicates() && views(v@).to_set() == reachable_set(graph_edges(*g), target@),
{
    let nodes: Result<Vec<&String>, SolventError> = match g.dependencies_of(target) {
        Ok(it) => it.collect(),
        Err(e) => Err(e),
    };
    match nodes {
        Ok(v) => Ok(v.into_iter().cloned().collect()),
        Err(SolventError::CycleDetected) => Err(GraphError::CycleDetected),
        Err(SolventError::NoSuchNode) => Err(GraphError::NoSuchNode),
    }
}

/// The graph of one dependency kind over a list of packages: the packages
/// registered in their order, each with the names it lists for that kind.
pub open spec fn graph_of(apps: Seq<Application>, kind: DepKind) -> Map<Seq<char>, Set<Seq<char>>>
    decreases apps.len(),
{
    if apps.len() == 0 {
        empty_graph()
    } else {
        registered(graph_of(apps.drop_last(), kind), apps.last().metadata.name@, apps.last().edges(kind))
    }
}

/// The names listed by a package for one kind.
fn edge_list(app: &Application, kind: DepKind) -> (r: Vec<String>)
    ensures
        views(r@) == app.edges(kind),
{
    match &app.dependencies {
        Some(d) => match d.list(kind) {
            Some(v) => copy_strings(v),
            None => Vec::new(),
        },
        None => Vec::new(),
    }
}

/// Registers each of `apps`, in order, onto a graph built from `prefix`.
fn register_apps(g: &mut DepGraph<String>, apps: &Vec<Application>, kind: DepKind, Ghost(prefix): Ghost<Seq<Application>>)
    requires
        graph_edges(*old(g)) == graph_of(prefix, kind),
        graph_satisfied(*old(g)) == Set::<Seq<char>>::empty(),
    ensures
        graph_edges(*final(g)) == graph_of(prefix + apps@, kind),
        graph_satisfied(*final(g)) == Set::<Seq<char>>::empty(),
{
    let mut i: usize = 0;
    assert(prefix + apps@.subrange(0, 0) =~= prefix);
    while i < apps.len()
        invariant
            i <= apps@.len(),
            graph_edges(*g) == graph_of(prefix + apps@.subrange(0, i as int), kind),
            graph_satisfied(*g) == Set::<Seq<char>>::empty(),
        decreases apps@.len() - i,
    {
        let app = &apps[i];
        let deps = edge_list(app, kind);
        register_dependencies(g, app.metadata.name.clone(), deps);
        proof {
            let p = prefix + apps@.subrange(0, i as int + 1);
            assert(p.drop_last() =~= prefix + apps@.subrange(0, i as int));
            assert(p.last() == apps@[i as int]);
        }
        i = i + 1;
    }
    assert(prefix + apps@.subrange(0, apps@.len() as int) =~= prefix + apps@);
}

/// Builds the graph of one dependency kind: every package becomes a node,
/// whether or not it declares dependencies of that kind.
pub fn dependency_graph(apps: &Vec<Application>, kind: DepKind) -> (g: DependencyGraph)
    ensures
        g.edges() == graph_of(apps@, kind),
{
    let mut raw = new_graph();
    register_apps(&mut raw, apps, kind, Ghost(Seq::empty()));
    assert(Seq::<Application>::empty() + apps@ =~= apps@);
    DependencyGraph { graph: raw }
}

/// The packages of every repository of a database, repository by
/// repository.
pub open spec fn all_apps(db: Seq<(String, BinRepo)>) -> Seq<Application>
    decreases db.len(),
{
    if db.len() == 0 {
        Seq::empty()
    } else {
        all_apps(db.drop_last()) + db.last().1.applications@
    }
}

/// Builds the graph of one dependency kind over every package of every
/// repository of a database.
pub fn database_graph(db: &Vec<(String, BinRepo)>, kind: DepKind) -> (g: DependencyGraph)
    ensures
        g.edges() == graph_of(all_apps(db@), kind),
{
    let mut raw = new_graph();
    let mut r: usize = 0;
    while r < db.len()
        invariant
            r <= db@.len(),
            graph_edges(raw) == graph_of(all_apps(db@.subrange(0, r as int)), kind),
            graph_satisfied(raw) == Set::<Seq<char>>::empty(),
        decreases db@.len() - r,
    {
        register_apps(&mut raw, &db[r].1.applications, kind, Ghost(all_apps(db@.subrange(0, r as int))));
        proof {
            let p = db@.subrange(0, r as int + 1);
            assert(p.drop_last() =~= db@.subrange(0, r as int));
            assert(p.last() == db@[r as int]);
        }
        r = r + 1;
    }
    assert(db@.subrange(0, db@.len() as int) =~= db@);
    DependencyGraph { graph: raw }
}

/// The names a recipe lists for one kind.
pub open spec fn recipe_edges(b: BuildFile, kind: DepKind) -> Seq<Seq<char>> {
    match b.dependencies {
        Some(d) => d.edges(kind),
        None => Seq::empty(),
    }
}

/// The graph of one dependency kind over a list of recipes, built as for
/// packages.
pub open spec fn recipe_graph_of(bs: Seq<BuildFile>, kind: DepKind) -> Map<Seq<char>, Set<Seq<char>>>
    decreases bs.len(),
{
    if bs.len() == 0 {
        empty_graph()
    } else {
        registered(recipe_graph_of(bs.drop_last(), kind), bs.last().metadata.name@, recipe_edges(bs.last(), kind))
    }
}

/// The names listed by a recipe for one kind.
fn recipe_edge_list(b: &BuildFile, kind: DepKind) -> (r: Vec<String>)
    ensures
        views(r@) == recipe_edges(*b, kind),
{
    match &b.dependencies {
        Some(d) => match d.list(kind) {
            Some(v) => copy_strings(v),
            None => Vec::new(),
        },
        None => Vec::new(),
    }
}

/// Builds the graph of one dependency kind over recipes: every recipe
/// becomes a node.
pub fn dependency_graph_of_recipes(bs: &Vec<BuildFile>, kind: DepKind) -> (r: DependencyGraph)
    ensures
        r.edges() == recipe_graph_of(bs@, kind),
{
    let mut g = new_graph();
    let mut i: usize = 0;
    while i < bs.len()
        invariant
            i <= bs@.len(),
            graph_edges(g) == recipe_graph_of(bs@.subrange(0, i as int), kind),
            graph_satisfied(g) == Set::<Seq<char>>::empty(),
        decreases bs@.len() - i,
    {
        let b = &bs[i];
        let deps = recipe_edge_list(b, kind);
        register_dependencies(&mut g, b.metadata.name.clone(), deps);
        proof {
            let p = bs@.subrange(0, i as int + 1);
            assert(p.drop_last() =~= bs@.subrange(0, i as int));
            assert(p.last() == bs@[i as int]);
        }
        i = i + 1;
    }
    assert(bs@.subrange(0, bs@.len() as int) =~= bs@);
    DependencyGraph { graph: g }
}

/// The closure of one package: the names reachable from it, each once.
pub fn closure_of(g: &DependencyGraph, name: &String) -> (r: Result<Vec<String>, GraphError>)
    ensures
        r matches Err(GraphError::NoSuchNode) <==> !g.edges().contains_key(name@),
        g.edges().contains_key(name@) ==> (r is Ok <==> !cycle_reachable(g.edges(), name@)),
        r matches Ok(v) ==> views(v@).no_duplicates() && views(v@).to_set() == reachable_set(g.edges(), name@),
{
    proof {
        use_type_invariant(g);
    }
    solvent_dependencies_of(&g.graph, name)
}

/// A closure can be computed from `n`: it is a node and reaches no cycle.
pub open spec fn closure_ok(g: Map<Seq<char>, Set<Seq<char>>>, n: Seq<char>) -> bool {
    g.contains_key(n) && !cycle_reachable(g, n)
}

/// `x` is reachable from one of `req`.
pub open spec fn in_closures(g: Map<Seq<char>, Set<Seq<char>>>, req: Seq<Seq<char>>, x: Seq<char>) -> bool {
    exists|k: int| 0 <= k < req.len() && #[trigger] reaches(g, req[k], x)
}

/// `k` is the first requested name whose closure holds `x`.
pub open spec fn first_request(g: Map<Seq<char>, Set<Seq<char>>>, req: Seq<Seq<char>>, x: Seq<char>, k: int) -> bool {
    &&& 0 <= k < req.len()
    &&& reaches(g, req[k], x)
    &&& forall|j: int| 0 <= j < k ==> !reaches(g, req[j], x)
}

/// Names come in first-seen order: every name of the closures of the first
/// requested names comes before any name first reached from a later one.
pub open spec fn in_request_order(g: Map<Seq<char>, Set<Seq<char>>>, req: Seq<Seq<char>>, v: Seq<Seq<char>>) -> bool {
    forall|a: int, b: int, ka: int, kb: int|
        0 <= a < b < v.len() && #[trigger] first_request(g, req, v[a], ka) && #[trigger] first_request(g, req, v[b], kb)
        ==> ka <= kb
}

proof fn lemma_first_request_unique(g: Map<Seq<char>, Set<Seq<char>>>, req: Seq<Seq<char>>, x: Seq<char>, k1: int, k2: int)
    requires
        first_request(g, req, x, k1),
        first_request(g, req, x, k2),
    ensures
        k1 == k2,
{
}

/// The error owed for the first requested name whose closure fails.
pub open spec fn closure_error(g: Map<Seq<char>, Set<Seq<char>>>, req: Seq<Seq<char>>, e: PkgError) -> bool {
    exists|i: int| {
        &&& 0 <= i < req.len()
        &&& forall|j: int| 0 <= j < i ==> closure_ok(g, #[trigger] req[j])
        &&& !closure_ok(g, req[i])
        &&& if g.contains_key(req[i]) {
            e matches PkgError::CycleDetected(n) && n@ == req[i]
        } else {
            e matches PkgError::NotFound(l) && views(l@) == seq![req[i]]
        }
    }
}

/// The union of the closures of the requested names, each name once; a
/// cycle or an unknown name is reported for the first requested name it
/// concerns.
pub fn install_closure(g: &DependencyGraph, requested: &Vec<String>) -> (r: Result<Vec<String>, PkgError>)
    ensures
        r is Ok <==> forall|i: int| 0 <= i < requested@.len() ==> closure_ok(g.edges(), #[trigger] requested@[i]@),
        r matches Ok(v) ==> views(v@).no_duplicates(),
        r matches Ok(v) ==> in_request_order(g.edges(), views(requested@), views(v@)),
        r matches Ok(v) ==> forall|x: Seq<char>|
            views(v@).contains(x) <==> in_closures(g.edges(), views(requested@), x),
        r matches Err(e) ==> closure_error(g.edges(), views(requested@), e),
{
    let ghost ge = g.edges();
    let ghost req = views(requested@);
    let mut out: Vec<String> = Vec::new();
    let ghost mut firsts: Seq<int> = Seq::empty();
    let mut i: usize = 0;
    while i < requested.len()
        invariant
            i <= requested@.len(),
            firsts.len() == out@.len(),
            forall|a: int| 0 <= a < firsts.len() ==> first_request(ge, req, views(out@)[a], #[trigger] firsts[a]),
            forall|a: int, b: int| 0 <= a < b < firsts.len() ==> #[trigger] firsts[a] <= #[trigger] firsts[b],
            forall|a: int| 0 <= a < firsts.len() ==> #[trigger] firsts[a] <= i,
            ge == g.edges(),
            req == views(requested@),
            views(out@).no_duplicates(),
            forall|x: Seq<char>| views(out@).contains(x) <==> in_closures(ge, req.subrange(0, i as int), x),
            forall|j: int| 0 <= j < i ==> closure_ok(ge, #[trigger] req[j]),
        decreases requested@.len() - i,
    {
        let name = &requested[i];
        assert(req[i as int] == name@);
        match closure_of(g, name) {
            Err(GraphError::CycleDetected) => {
                assert(!closure_ok(ge, requested@[i as int]@));
                let e = PkgError::CycleDetected(name.clone());
                assert(closure_error(ge, req, e)) by {
                    assert(req.len() == requested@.len());
                }
                return Err(e);
            },
            Err(GraphError::NoSuchNode) => {
                assert(!closure_ok(ge, requested@[i as int]@));
                let l = vec![name.clone()];
                assert(views(l@) =~= seq![req[i as int]]);
                let e = PkgError::NotFound(l);
                assert(closure_error(ge, req, e));
                return Err(e);
            },
            Ok(c) => {
                assert(views(c@).to_set() == reachable_set(ge, name@));
                let ghost before = out@;
                let mut j: usize = 0;
                while j < c.len()
                    invariant
                        j <= c@.len(),
                        ge == g.edges(),
                        req == views(requested@),
                        i < requested@.len(),
                        firsts.len() == out@.len(),
                        forall|a: int| 0 <= a < firsts.len() ==> first_request(ge, req, views(out@)[a], #[trigger] firsts[a]),
                        forall|a: int, b: int| 0 <= a < b < firsts.len() ==> #[trigger] firsts[a] <= #[trigger] firsts[b],
                        forall|a: int| 0 <= a < firsts.len() ==> #[trigger] firsts[a] <= i,
                        forall|x: Seq<char>| views(before).contains(x) <==> in_closures(ge, req.subrange(0, i as int), x),
                        views(c@).to_set() == reachable_set(ge, name@),
                        name@ == req[i as int],
                        i < req.len(),
                        views(out@).no_duplicates(),
                        forall|x: Seq<char>| views(out@).contains(x) <==> (views(before).contains(x)
                            || views(c@).subrange(0, j as int).contains(x)),
                    decreases c@.len() - j,
                {
                    let ghost prev = out@;
                    let ghost cj = c@[j as int]@;
                    let ghost s1 = views(c@).subrange(0, j as int);
                    let ghost s2 = views(c@).subrange(0, j as int + 1);
                    assert(s2 =~= s1.push(cj));
                    if !contains_name(&out, c[j].as_str()) {
                        proof {
                            assert(views(c@).contains(cj)) by {
                                assert(views(c@)[j as int] == cj);
                            }
                            assert(views(c@).to_set().contains(cj));
                            assert(reaches(ge, req[i as int], cj));
                            assert(!views(before).contains(cj));
                            assert forall|k: int| 0 <= k < i implies !reaches(ge, req[k], cj) by {
                                if reaches(ge, req[k], cj) {
                                    assert(req.subrange(0, i as int)[k] == req[k]);
                                    assert(reaches(ge, req.subrange(0, i as int)[k], cj));
                                    assert(in_closures(ge, req.subrange(0, i as int), cj));
                                }
                            }
                            assert(first_request(ge, req, cj, i as int));
                        }
                        out.push(c[j].clone());
                        proof {
                            firsts = firsts.push(i as int);
                        }
                        assert(views(out@) =~= views(prev).push(cj));
                        proof {
                            lemma_push_contains(views(prev), cj);
                            lemma_push_no_duplicates(views(prev), cj);
                        }
                    } else {
                        assert(views(out@) == views(prev));
                    }
                    proof {
                        lemma_push_contains(s1, cj);
                        assert forall|x: Seq<char>| views(out@).contains(x) <==> (views(before).contains(x)
                            || s2.contains(x)) by {
                            assert(views(prev).contains(x) <==> (views(before).contains(x) || s1.contains(x)));
                            assert(s2.contains(x) <==> (s1.contains(x) || x == cj));
                            if x == cj {
                                assert(views(out@).contains(x));
                            }
                        }
                    }
                    j = j + 1;
                }
                assert(j == c@.len());
                assert(views(c@).subrange(0, j as int) =~= views(c@));
                assert(forall|x: Seq<char>| views(out@).contains(x) <==> (views(before).contains(x)
                    || views(c@).contains(x)));
                assert forall|x: Seq<char>| views(out@).contains(x) <==> in_closures(ge, req.subrange(0, i as int + 1), x) by {
                    assert(views(c@).subrange(0, c@.len() as int) =~= views(c@));
                    let p0 = req.subrange(0, i as int);
                    let p1 = req.subrange(0, i as int + 1);
                    assert(p1[i as int] == name@);
                    assert(views(out@).contains(x) <==> (views(before).contains(x) || views(c@).contains(x)));
                    assert(views(before).contains(x) <==> in_closures(ge, p0, x));
                    assert(views(c@).contains(x) <==> views(c@).to_set().contains(x));
                    assert(views(c@).contains(x) <==> reaches(ge, name@, x));
                    if in_closures(ge, p1, x) {
                        let k = choose|k: int| 0 <= k < p1.len() && #[trigger] reaches(ge, p1[k], x);
                        if k < i {
                            assert(p0[k] == p1[k]);
                            assert(reaches(ge, p0[k], x));
                            assert(in_closures(ge, p0, x));
                        } else {
                            assert(reaches(ge, name@, x));
                        }
                    }
                    if in_closures(ge, p0, x) {
                        let k = choose|k: int| 0 <= k < p0.len() && #[trigger] reaches(ge, p0[k], x);
                        assert(p1[k] == p0[k]);
                        assert(reaches(ge, p1[k], x));
                        assert(in_closures(ge, p1, x));
                    }
                    if reaches(ge, name@, x) {
                        assert(reaches(ge, p1[i as int], x));
                        assert(in_closures(ge, p1, x));
                    }
                }
            },
        }
        i = i + 1;
    }
    assert(req.subrange(0, requested@.len() as int) =~= req);
    assert forall|i: int| 0 <= i < requested@.len() implies closure_ok(g.edges(), #[trigger] requested@[i]@) by {
        assert(req[i] == requested@[i]@);
    }
    assert forall|a: int, b: int, ka: int, kb: int|
        0 <= a < b < views(out@).len() && #[trigger] first_request(ge, req, views(out@)[a], ka)
            && #[trigger] first_request(ge, req, views(out@)[b], kb)
        implies ka <= kb by {
        lemma_first_request_unique(ge, req, views(out@)[a], ka, firsts[a]);
        lemma_first_request_unique(ge, req, views(out@)[b], kb, firsts[b]);
    }
    Ok(out)
}

/// Every package of a list without dependency blocks is a node without
/// edges in the graph of each kind.
pub proof fn lemma_isolated_without_dependencies(apps: Seq<Application>, kind: DepKind)
    requires
        forall|i: int| 0 <= i < apps.len() ==> (#[trigger] apps[i]).dependencies is None,
    ensures
        forall|i: int| 0 <= i < apps.len() ==> graph_of(apps, kind).contains_key(#[trigger] apps[i].metadata.name@)
            && graph_of(apps, kind)[apps[i].metadata.name@] == Set::<Seq<char>>::empty(),
        forall|k: Seq<char>| #[trigger] graph_of(apps, kind).contains_key(k) ==> graph_of(apps, kind)[k] == Set::<Seq<char>>::empty(),
    decreases apps.len(),
{
    if apps.len() > 0 {
        let rest = apps.drop_last();
        assert forall|i: int| 0 <= i < rest.len() implies (#[trigger] rest[i]).dependencies is None by {
            assert(rest[i] == apps[i]);
        }
        lemma_isolated_without_dependencies(rest, kind);
        let last = apps.last();
        assert(last.edges(kind) =~= Seq::<Seq<char>>::empty());
        assert(last.edges(kind).to_set() =~= Set::<Seq<char>>::empty());
        let g = graph_of(apps, kind);
        let m = graph_of(rest, kind);
        let n = last.metadata.name@;
        let deps = last.edges(kind);
        let base = Map::new(
            |k: Seq<char>| m.contains_key(k) || k == n || deps.contains(k),
            |k: Seq<char>| if m.contains_key(k) { m[k] } else { Set::empty() },
        );
        assert(g == base.insert(n, base[n].union(deps.to_set())));
        assert(base[n].union(deps.to_set()) =~= base[n]);
        assert forall|k: Seq<char>| #[trigger] g.contains_key(k) implies g[k] == Set::<Seq<char>>::empty() by {
            if m.contains_key(k) {
                assert(m[k] == Set::<Seq<char>>::empty());
            }
        }
        assert forall|i: int| 0 <= i < apps.len() implies g.contains_key(#[trigger] apps[i].metadata.name@)
            && g[apps[i].metadata.name@] == Set::<Seq<char>>::empty() by {
            if i < apps.len() - 1 {
                assert(rest[i] == apps[i]);
                assert(m.contains_key(rest[i].metadata.name@));
            }
        }
    }
}

} // verus!
