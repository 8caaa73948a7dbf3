use vstd::prelude::*;

use crate::function_id::FunctionId;
use crate::project::{first_named, FidView, ProjectIndex};
use crate::pyast::{block, opens_block, PyExpr, PyStmt};

verus! {

/// One adjacency entry: a function and the functions related to it.
pub type AdjEntry = (FunctionId, Vec<FunctionId>);

/// The set of identifiers held in `s`.
pub open spec fn ids_set(s: Seq<FunctionId>) -> Set<FidView> {
    Set::new(|v: FidView| exists|j: int| 0 <= j < s.len() && s[j]@ == v)
}

/// No key occurs twice, and no list holds an identifier twice.
pub open spec fn adj_wf(adj: Seq<AdjEntry>) -> bool {
    &&& forall|i: int, j: int|
        0 <= i < adj.len() && 0 <= j < adj.len() && i != j ==> adj[i].0@ != adj[j].0@
    &&& forall|i: int, a: int, b: int|
        0 <= i < adj.len() && 0 <= a < adj[i].1.len() && 0 <= b < adj[i].1.len() && a != b
            ==> adj[i].1@[a]@ != adj[i].1@[b]@
}

/// The adjacency list as a map from a function to the set of related
/// functions.
pub open spec fn adj_view(adj: Seq<AdjEntry>) -> Map<FidView, Set<FidView>> {
    Map::new(
        |k: FidView| exists|i: int| 0 <= i < adj.len() && adj[i].0@ == k,
        |k: FidView| ids_set(adj[choose|i: int| 0 <= i < adj.len() && adj[i].0@ == k].1@),
    )
}

/// Adds `v` to the set stored under `k`, creating the set when `k` is new.
pub open spec fn add_pair(m: Map<FidView, Set<FidView>>, k: FidView, v: FidView) -> Map<
    FidView,
    Set<FidView>,
> {
    if m.contains_key(k) {
        m.insert(k, m[k].insert(v))
    } else {
        m.insert(k, Set::empty().insert(v))
    }
}

proof fn lemma_adj_view_at(adj: Seq<AdjEntry>, i: int)
    requires
        adj_wf(adj),
        0 <= i < adj.len(),
    ensures
        adj_view(adj).contains_key(adj[i].0@),
        adj_view(adj)[adj[i].0@] == ids_set(adj[i].1@),
{
    let k = adj[i].0@;
    assert(exists|c: int| 0 <= c < adj.len() && adj[c].0@ == k);
    let c = choose|c: int| 0 <= c < adj.len() && adj[c].0@ == k;
    assert(c == i);
}

/// Adds `val` to the set of `key` in the adjacency list `adj`.
fn adj_add(adj: &mut Vec<AdjEntry>, key: FunctionId, val: FunctionId)
    requires
        adj_wf(old(adj)@),
    ensures
        adj_wf(final(adj)@),
        adj_view(final(adj)@) == add_pair(adj_view(old(adj)@), key@, val@),
{
    let ghost old_adj = adj@;
    let ghost kv = key@;
    let ghost vv = val@;
    let mut i: usize = 0;
    while i < adj.len()
        invariant
            0 <= i <= adj.len(),
            adj@ == old_adj,
            old_adj == old(adj)@,
            adj_wf(old_adj),
            kv == key@,
            vv == val@,
            forall|j: int| 0 <= j < i ==> old_adj[j].0@ != kv,
        decreases adj.len() - i,
    {
        if adj[i].0.same_as(&key) {
            let (k, mut list) = adj.remove(i);
            let mut present = false;
            let mut j: usize = 0;
            while j < list.len()
                invariant
                    0 <= j <= list.len(),
                    !present ==> forall|a: int| 0 <= a < j ==> list@[a]@ != vv,
                    present ==> exists|a: int| 0 <= a < list.len() && list@[a]@ == vv,
                    vv == val@,
                decreases list.len() - j,
            {
                if list[j].same_as(&val) {
                    present = true;
                }
                j = j + 1;
            }
            let ghost old_list = list@;
            if !present {
                list.push(val);
            }
            adj.insert(i, (k, list));
            proof {
                let new_adj = adj@;
                assert(new_adj =~= old_adj.update(i as int, (k, list)));
                lemma_adj_view_at(old_adj, i as int);
                assert(ids_set(list@) =~= ids_set(old_list).insert(vv)) by {
                    if !present {
                        assert(list@ == old_list.push(val));
                        assert forall|x: FidView| ids_set(old_list).insert(vv).contains(x) implies ids_set(
                            list@,
                        ).contains(x) by {
                            if x == vv {
                                assert(list@[old_list.len() as int]@ == x);
                            } else {
                                let a = choose|a: int| 0 <= a < old_list.len() && old_list[a]@ == x;
                                assert(list@[a]@ == x);
                            }
                        }
                    }
                }
                assert(adj_wf(new_adj));
                lemma_adj_view_at(new_adj, i as int);
                assert forall|c: int| 0 <= c < new_adj.len() implies #[trigger] new_adj[c].0@ == old_adj[c].0@ by {}
                assert forall|q: FidView| #[trigger] adj_view(new_adj).contains_key(q) <==> adj_view(old_adj).contains_key(q) by {
                    if adj_view(new_adj).contains_key(q) {
                        let c = choose|c: int| 0 <= c < new_adj.len() && new_adj[c].0@ == q;
                        assert(old_adj[c].0@ == q);
                    }
                    if adj_view(old_adj).contains_key(q) {
                        let c = choose|c: int| 0 <= c < old_adj.len() && old_adj[c].0@ == q;
                        assert(new_adj[c].0@ == q);
                    }
                }
                assert forall|q: FidView| #[trigger] adj_view(new_adj).contains_key(q) && q != kv
                    implies adj_view(new_adj)[q] == adj_view(old_adj)[q] by {
                    {
                        let c = choose|c: int| 0 <= c < new_adj.len() && new_adj[c].0@ == q;
                        assert(c != i);
                        lemma_adj_view_at(new_adj, c);
                        lemma_adj_view_at(old_adj, c);
                    }
                }
                assert(adj_view(new_adj) =~= add_pair(adj_view(old_adj), kv, vv));
            }
            return;
        }
        i = i + 1;
    }
    let mut list: Vec<FunctionId> = Vec::new();
    list.push(val);
    adj.push((key, list));
    proof {
        let new_adj = adj@;
        let n = old_adj.len() as int;
        assert(!adj_view(old_adj).contains_key(kv));
        assert(adj_wf(new_adj));
        lemma_adj_view_at(new_adj, n);
        assert(ids_set(new_adj[n].1@) =~= Set::empty().insert(vv)) by {
            assert(new_adj[n].1@[0]@ == vv);
        }
        assert forall|q: FidView| #[trigger] adj_view(new_adj).contains_key(q) && q != kv
            implies adj_view(old_adj).contains_key(q) && adj_view(new_adj)[q] == adj_view(old_adj)[q] by {
            {
                let c = choose|c: int| 0 <= c < new_adj.len() && new_adj[c].0@ == q;
                assert(c != n);
                lemma_adj_view_at(new_adj, c);
                lemma_adj_view_at(old_adj, c);
            }
        }
        assert forall|q: FidView| #[trigger] adj_view(old_adj).contains_key(q) implies adj_view(
            new_adj,
        ).contains_key(q) by {
            let c = choose|c: int| 0 <= c < old_adj.len() && old_adj[c].0@ == q;
            assert(new_adj[c].0@ == q);
        }
        assert(adj_view(new_adj) =~= add_pair(adj_view(old_adj), kv, vv));
    }
}

/// Who calls whom: `callers[f]` holds the functions calling `f`,
/// `callees[f]` the functions that `f` calls.
pub struct CallGraph {
    pub callers: Vec<AdjEntry>,
    pub callees: Vec<AdjEntry>,
}

/// The view of a call graph: (callers, callees).
pub type GraphView = (Map<FidView, Set<FidView>>, Map<FidView, Set<FidView>>);

/// The graph view after adding the edge `from -> to`.
pub open spec fn add_edge_view(g: GraphView, from: FidView, to: FidView) -> GraphView {
    (add_pair(g.0, to, from), add_pair(g.1, from, to))
}

/// An edge `a -> b` is recorded among the callees of `a` exactly when it is
/// recorded among the callers of `b`.
pub open spec fn symmetric(g: GraphView) -> bool {
    forall|a: FidView, b: FidView|
        #![trigger g.1[a].contains(b)]
        #![trigger g.0[b].contains(a)]
        (g.1.contains_key(a) && g.1[a].contains(b)) <==> (g.0.contains_key(b) && g.0[b].contains(a))
}

impl CallGraph {
    pub open spec fn wf(&self) -> bool {
        adj_wf(self.callers@) && adj_wf(self.callees@)
    }

    pub open spec fn view(&self) -> GraphView {
        (adj_view(self.callers@), adj_view(self.callees@))
    }

    /// The empty graph.
    pub fn new() -> (r: Self)
        ensures
            r.wf(),
            r.view().0 == Map::<FidView, Set<FidView>>::empty(),
            r.view().1 == Map::<FidView, Set<FidView>>::empty(),
    {
        let r = CallGraph { callers: Vec::new(), callees: Vec::new() };
        assert(r.view().0 =~= Map::<FidView, Set<FidView>>::empty());
        assert(r.view().1 =~= Map::<FidView, Set<FidView>>::empty());
        r
    }

    /// Records that `from` calls `to`.
    pub fn add_edge(&mut self, from: FunctionId, to: FunctionId)
        requires
            old(self).wf(),
        ensures
            final(self).wf(),
            final(self).view() == add_edge_view(old(self).view(), from@, to@),
    {
        adj_add(&mut self.callers, to.duplicate(), from.duplicate());
        adj_add(&mut self.callees, from, to);
    }
}

/// The empty graph is symmetric.
pub proof fn lemma_empty_graph_symmetric()
    ensures
        symmetric((Map::empty(), Map::empty())),
{
}

/// Adding an edge keeps the callers and callees maps mirror images of each
/// other.
pub proof fn lemma_add_edge_keeps_symmetry(g: GraphView, from: FidView, to: FidView)
    requires
        symmetric(g),
    ensures
        symmetric(add_edge_view(g, from, to)),
{
    let h = add_edge_view(g, from, to);
    assert forall|a: FidView, b: FidView|
        (h.1.contains_key(a) && #[trigger] h.1[a].contains(b)) implies (h.0.contains_key(b)
            && #[trigger] h.0[b].contains(a)) by {
        if !(a == from && b == to) {
            assert(g.1.contains_key(a) && g.1[a].contains(b));
            assert(g.0.contains_key(b) && g.0[b].contains(a));
        }
    }
    assert forall|a: FidView, b: FidView|
        (h.0.contains_key(b) && #[trigger] h.0[b].contains(a)) implies (h.1.contains_key(a)
            && #[trigger] h.1[a].contains(b)) by {
        if !(a == from && b == to) {
            assert(g.0.contains_key(b) && g.0[b].contains(a));
            assert(g.1.contains_key(a) && g.1[a].contains(b));
        }
    }
}

/// Adding an edge that is already recorded changes nothing.
pub proof fn lemma_add_edge_idempotent(g: GraphView, from: FidView, to: FidView)
    ensures
        add_edge_view(add_edge_view(g, from, to), from, to) == add_edge_view(g, from, to),
{
    let h = add_edge_view(g, from, to);
    assert(h.0[to].insert(from) =~= h.0[to]);
    assert(h.1[from].insert(to) =~= h.1[from]);
    assert(add_edge_view(h, from, to).0 =~= h.0);
    assert(add_edge_view(h, from, to).1 =~= h.1);
}

/// After adding `from -> to`, `to` is among the callees of `from` and `from`
/// among the callers of `to`; every earlier edge stays.
pub proof fn lemma_add_edge_records(g: GraphView, from: FidView, to: FidView, a: FidView, b: FidView)
    ensures
        add_edge_view(g, from, to).1.contains_key(from),
        add_edge_view(g, from, to).1[from].contains(to),
        add_edge_view(g, from, to).0.contains_key(to),
        add_edge_view(g, from, to).0[to].contains(from),
        g.1.contains_key(a) && g.1[a].contains(b) ==> add_edge_view(g, from, to).1.contains_key(a)
            && add_edge_view(g, from, to).1[a].contains(b),
{
}

/// The function a call expression resolves to: a call of a plain name goes
/// to the first function of that name in map order.
pub open spec fn resolved_target(e: PyExpr, mapv: Seq<(FidView, (usize, usize))>) -> Option<FidView> {
    match e {
        PyExpr::Call { func, .. } => match *func {
            PyExpr::Name { id } => match first_named(mapv, id@) {
                Some(i) => Some(mapv[i].0),
                None => None,
            },
            _ => None,
        },
        _ => None,
    }
}

/// Calls are resolved statically, by name only: a call whose callee is not a
/// plain name (`getattr(obj, "f")(...)`, `importlib.import_module(m).f(...)`)
/// resolves to no function, whatever the project defines.
pub proof fn lemma_dynamic_callee_unresolved(
    func: PyExpr,
    args: Vec<PyExpr>,
    keywords: Vec<PyExpr>,
    offset: u32,
    mapv: Seq<(FidView, (usize, usize))>,
)
    requires
        !(func is Name),
    ensures
        resolved_target(PyExpr::Call { func: Box::new(func), args, keywords, offset }, mapv) is None,
{
}

/// The resolved target of `s` itself when it is a call expression statement.
pub open spec fn here_targets(s: PyStmt, mapv: Seq<(FidView, (usize, usize))>) -> Seq<FidView> {
    match s {
        PyStmt::Expr { value } => match resolved_target(value, mapv) {
            Some(t) => seq![t],
            None => Seq::empty(),
        },
        _ => Seq::empty(),
    }
}

/// The resolved targets of the calls that stand as expression statements in
/// `s` and in the blocks nested under it, in visiting order.
pub open spec fn stmt_targets(s: PyStmt, mapv: Seq<(FidView, (usize, usize))>) -> Seq<FidView>
    decreases s,
{
    let here = here_targets(s, mapv);
    let nested = match s {
        PyStmt::FunctionDef { def } => stmts_targets(def.body@, mapv),
        PyStmt::Other { kind, suites, .. } => if opens_block(kind) && suites.len() > 0 {
            stmts_targets(suites@[0]@, mapv)
        } else {
            Seq::empty()
        },
        _ => Seq::empty(),
    };
    here + nested
}

/// `stmt_targets` over a statement list.
pub open spec fn stmts_targets(ss: Seq<PyStmt>, mapv: Seq<(FidView, (usize, usize))>) -> Seq<FidView>
    decreases ss,
{
    if ss.len() == 0 {
        Seq::empty()
    } else {
        stmts_targets(ss.subrange(0, ss.len() - 1), mapv) + stmt_targets(ss[ss.len() - 1], mapv)
    }
}

/// The graph view after adding `from -> t` for every `t` in `ts`, in order.
pub open spec fn add_edges(g: GraphView, from: FidView, ts: Seq<FidView>) -> GraphView
    decreases ts.len(),
{
    if ts.len() == 0 {
        g
    } else {
        add_edge_view(add_edges(g, from, ts.drop_last()), from, ts.last())
    }
}

pub proof fn lemma_add_edges_concat(g: GraphView, from: FidView, a: Seq<FidView>, b: Seq<FidView>)
    ensures
        add_edges(g, from, a + b) == add_edges(add_edges(g, from, a), from, b),
    decreases b.len(),
{
    if b.len() == 0 {
        assert(a + b =~= a);
    } else {
        assert((a + b).drop_last() =~= a + b.drop_last());
        lemma_add_edges_concat(g, from, a, b.drop_last());
    }
}

/// The body of the function stored under entry `i` of the project's map.
pub open spec fn entry_body(p: ProjectIndex, i: int) -> Seq<PyStmt> {
    let (m, f) = p.map_view()[i].1;
    p.modules@[m as int].functions@[f as int].body@
}

/// The call graph after visiting the first `n` functions of the map: an
/// edge from each function to every function that one of its expression
/// statements calls by name.
pub open spec fn graph_upto(p: ProjectIndex, n: int) -> GraphView
    decreases n,
{
    if n <= 0 {
        (Map::empty(), Map::empty())
    } else {
        add_edges(
            graph_upto(p, n - 1),
            p.map_view()[n - 1].0,
            stmts_targets(entry_body(p, n - 1), p.map_view()),
        )
    }
}

proof fn lemma_add_edges_symmetric(g: GraphView, from: FidView, ts: Seq<FidView>)
    requires
        symmetric(g),
    ensures
        symmetric(add_edges(g, from, ts)),
    decreases ts.len(),
{
    if ts.len() > 0 {
        lemma_add_edges_symmetric(g, from, ts.drop_last());
        lemma_add_edge_keeps_symmetry(add_edges(g, from, ts.drop_last()), from, ts.last());
    }
}

/// The graph built from a project is symmetric: `g` is a callee of `f`
/// exactly when `f` is a caller of `g`.
pub proof fn lemma_built_graph_symmetric(p: ProjectIndex, n: int)
    ensures
        symmetric(graph_upto(p, n)),
    decreases n,
{
    if n > 0 {
        lemma_built_graph_symmetric(p, n - 1);
        lemma_add_edges_symmetric(
            graph_upto(p, n - 1),
            p.map_view()[n - 1].0,
            stmts_targets(entry_body(p, n - 1), p.map_view()),
        );
    }
}

/// `a -> b` is recorded on both sides: `b` among the callees of `a` and `a`
/// among the callers of `b`.
pub open spec fn records_edge(g: GraphView, a: FidView, b: FidView) -> bool {
    &&& g.1.contains_key(a)
    &&& g.1[a].contains(b)
    &&& g.0.contains_key(b)
    &&& g.0[b].contains(a)
}

proof fn lemma_add_edge_keeps(g: GraphView, from: FidView, to: FidView, a: FidView, b: FidView)
    requires
        records_edge(g, a, b),
    ensures
        records_edge(add_edge_view(g, from, to), a, b),
{
}

proof fn lemma_add_edges_keeps(g: GraphView, from: FidView, ts: Seq<FidView>, a: FidView, b: FidView)
    requires
        records_edge(g, a, b),
    ensures
        records_edge(add_edges(g, from, ts), a, b),
    decreases ts.len(),
{
    if ts.len() > 0 {
        lemma_add_edges_keeps(g, from, ts.drop_last(), a, b);
        lemma_add_edge_keeps(add_edges(g, from, ts.drop_last()), from, ts.last(), a, b);
    }
}

/// Adding the edges from `from` to each of `ts` records every one of them,
/// a call of `from` itself included, and keeps every edge recorded before.
pub proof fn lemma_add_edges_records(g: GraphView, from: FidView, ts: Seq<FidView>, j: int, a: FidView, b: FidView)
    requires
        0 <= j < ts.len(),
    ensures
        records_edge(add_edges(g, from, ts), from, ts[j]),
        records_edge(g, a, b) ==> records_edge(add_edges(g, from, ts), a, b),
    decreases ts.len(),
{
    if records_edge(g, a, b) {
        lemma_add_edges_keeps(g, from, ts, a, b);
    }
    let prev = add_edges(g, from, ts.drop_last());
    if j == ts.len() - 1 {
        lemma_add_edge_records(prev, from, ts.last(), from, ts.last());
    } else {
        lemma_add_edges_records(g, from, ts.drop_last(), j, a, b);
        lemma_add_edge_keeps(prev, from, ts.last(), from, ts[j]);
    }
}

/// A call standing as an expression statement in a list of statements is
/// among the targets of that list.
pub proof fn lemma_stmts_targets_has_call(ss: Seq<PyStmt>, mapv: Seq<(FidView, (usize, usize))>, i: int, t: FidView)
    requires
        0 <= i < ss.len(),
        ss[i] matches PyStmt::Expr { value } && resolved_target(value, mapv) == Some(t),
    ensures
        stmts_targets(ss, mapv).contains(t),
    decreases ss.len(),
{
    let init = ss.subrange(0, ss.len() - 1);
    if i == ss.len() - 1 {
        let st = stmt_targets(ss[i], mapv);
        assert(here_targets(ss[i], mapv) =~= seq![t]);
        assert(st[0] == t);
        assert(stmts_targets(ss, mapv)[stmts_targets(init, mapv).len() as int] == t);
    } else {
        assert(init[i] == ss[i]);
        lemma_stmts_targets_has_call(init, mapv, i, t);
        let k = choose|k: int| 0 <= k < stmts_targets(init, mapv).len() && stmts_targets(init, mapv)[k] == t;
        assert(stmts_targets(ss, mapv)[k] == t);
    }
}

/// The built call graph has an edge `f -> g` for every call `g(...)`
/// standing as a statement in the body of a function `f` of the project
/// that resolves to `g` (nested blocks included), `g == f` too: then `g` is
/// a callee of `f` and `f` a caller of `g`.
pub proof fn lemma_built_graph_records_calls(p: ProjectIndex, n: int, j: int, k: int)
    requires
        0 <= j < n,
        0 <= k < stmts_targets(entry_body(p, j), p.map_view()).len(),
    ensures
        records_edge(
            graph_upto(p, n),
            p.map_view()[j].0,
            stmts_targets(entry_body(p, j), p.map_view())[k],
        ),
    decreases n,
{
    let from = p.map_view()[j].0;
    let t = stmts_targets(entry_body(p, j), p.map_view())[k];
    let ts = stmts_targets(entry_body(p, n - 1), p.map_view());
    if j == n - 1 {
        lemma_add_edges_records(graph_upto(p, n - 1), from, ts, k, from, t);
    } else {
        lemma_built_graph_records_calls(p, n - 1, j, k);
        lemma_add_edges_keeps(graph_upto(p, n - 1), p.map_view()[n - 1].0, ts, from, t);
    }
}

/// A top-level call statement `g(...)` in the body of function `j` that
/// resolves to `g` gives the edge `f -> g`, also when `g` is `f` itself.
pub proof fn lemma_built_graph_records_call_statement(p: ProjectIndex, n: int, j: int, i: int, t: FidView)
    requires
        0 <= j < n,
        0 <= i < entry_body(p, j).len(),
        entry_body(p, j)[i] matches PyStmt::Expr { value } && resolved_target(value, p.map_view()) == Some(t),
    ensures
        records_edge(graph_upto(p, n), p.map_view()[j].0, t),
{
    let ts = stmts_targets(entry_body(p, j), p.map_view());
    lemma_stmts_targets_has_call(entry_body(p, j), p.map_view(), i, t);
    let k = choose|k: int| 0 <= k < ts.len() && ts[k] == t;
    lemma_built_graph_records_calls(p, n, j, k);
}

/// Builds a call graph by walking the body of every function of a project.
pub struct CallGraphBuilder<'a> {
    pub project: &'a ProjectIndex,
    pub graph: CallGraph,
    pub current_func: Option<FunctionId>,
}

impl<'a> CallGraphBuilder<'a> {
    /// The call graph of `project`: `f -> g` for every call statement `g(...)`
    /// in the body of `f` (nested blocks included) that resolves to `g`.
    pub fn build(project: &'a ProjectIndex) -> (r: CallGraph)
        requires
            project.wf(),
        ensures
            r.wf(),
            r.view() == graph_upto(*project, project.function_map.len() as int),
    {
        let mut builder = CallGraphBuilder { project, graph: CallGraph::new(), current_func: None };
        assert(builder.graph.view() =~= graph_upto(*project, 0));
        let mut i: usize = 0;
        while i < project.function_map.len()
            invariant
                0 <= i <= project.function_map.len(),
                project.wf(),
                builder.project == project,
                builder.graph.wf(),
                builder.graph.view() == graph_upto(*project, i as int),
            decreases project.function_map.len() - i,
        {
            let fid = project.function_map[i].0.duplicate();
            proof {
                let c = choose|c: int|
                    0 <= c < project.map_view().len() && project.map_view()[c].0 == fid@;
                assert(project.map_view()[i as int].0 == fid@);
                assert(c == i);
            }
            let (func, _, _) = project.get_function(&fid).unwrap();
            builder.current_func = Some(fid);
            builder.visit_stmts(&func.body);
            i = i + 1;
        }
        builder.graph
    }

    /// Visits each statement of a list in order.
    pub fn visit_stmts(&mut self, stmts: &[PyStmt])
        requires
            old(self).graph.wf(),
        ensures
            final(self).graph.wf(),
            final(self).project == old(self).project,
            final(self).current_func == old(self).current_func,
            final(self).graph.view() == match old(self).current_func {
                Some(c) => add_edges(
                    old(self).graph.view(),
                    c@,
                    stmts_targets(stmts@, old(self).project.map_view()),
                ),
                None => old(self).graph.view(),
            },
    {
        let ghost g0 = self.graph.view();
        let ghost mapv = self.project.map_view();
        let mut i: usize = 0;
        while i < stmts.len()
            invariant
                0 <= i <= stmts.len(),
                self.graph.wf(),
                self.project == old(self).project,
                self.current_func == old(self).current_func,
                mapv == self.project.map_view(),
                g0 == old(self).graph.view(),
                self.graph.view() == match self.current_func {
                    Some(c) => add_edges(g0, c@, stmts_targets(stmts@.subrange(0, i as int), mapv)),
                    None => g0,
                },
            decreases stmts.len() - i,
        {
            self.visit_stmt(&stmts[i]);
            proof {
                let pre = stmts@.subrange(0, i as int);
                let post = stmts@.subrange(0, i + 1);
                assert(post.subrange(0, post.len() - 1) =~= pre);
                if let Some(c) = &self.current_func {
                    lemma_add_edges_concat(g0, c@, stmts_targets(pre, mapv), stmt_targets(stmts@[i as int], mapv));
                }
            }
            i = i + 1;
        }
        assert(stmts@.subrange(0, stmts.len() as int) =~= stmts@);
    }

    /// Records an edge for a call standing as an expression statement, then
    /// visits the statements of the nested block.
    pub fn visit_stmt(&mut self, stmt: &PyStmt)
        requires
            old(self).graph.wf(),
        ensures
            final(self).graph.wf(),
            final(self).project == old(self).project,
            final(self).current_func == old(self).current_func,
            final(self).graph.view() == match old(self).current_func {
                Some(c) => add_edges(
                    old(self).graph.view(),
                    c@,
                    stmt_targets(*stmt, old(self).project.map_view()),
                ),
                None => old(self).graph.view(),
            },
        decreases stmt,
    {
        let ghost g0 = self.graph.view();
        let ghost mapv = self.project.map_view();
        if let PyStmt::Expr { value } = stmt {
            if let PyExpr::Call { .. } = value {
                if let Some(target) = self.resolve_call(value) {
                    if let Some(current) = &self.current_func {
                        let from = current.duplicate();
                        self.graph.add_edge(from, target);
                    }
                }
            }
        }
        let ghost g1 = self.graph.view();
        let ghost here = here_targets(*stmt, mapv);
        proof {
            if let Some(c) = &self.current_func {
                assert(g1 == add_edges(g0, c@, here)) by {
                    if here.len() == 1 {
                        assert(here.drop_last() =~= Seq::<FidView>::empty());
                        assert(add_edges(g0, c@, here.drop_last()) == g0);
                    }
                }
            }
        }
        let children = block(stmt);
        let mut i: usize = 0;
        while i < children.len()
            invariant
                0 <= i <= children.len(),
                children@ == crate::pyast::block_of(*stmt),
                self.graph.wf(),
                self.project == old(self).project,
                self.current_func == old(self).current_func,
                mapv == self.project.map_view(),
                self.graph.view() == match self.current_func {
                    Some(c) => add_edges(g1, c@, stmts_targets(children@.subrange(0, i as int), mapv)),
                    None => g1,
                },
            decreases children.len() - i,
        {
            assert(decreases_to!(*stmt => children@[i as int]));
            self.visit_stmt(&children[i]);
            proof {
                let pre = children@.subrange(0, i as int);
                let post = children@.subrange(0, i + 1);
                assert(post.subrange(0, post.len() - 1) =~= pre);
                if let Some(c) = &self.current_func {
                    lemma_add_edges_concat(g1, c@, stmts_targets(pre, mapv), stmt_targets(children@[i as int], mapv));
                }
            }
            i = i + 1;
        }
        proof {
            assert(children@.subrange(0, children.len() as int) =~= children@);
            if let Some(c) = &self.current_func {
                lemma_add_edges_concat(g0, c@, here, stmts_targets(children@, mapv));
            }
        }
    }

    /// The function a call resolves to: for a call of a plain name, the first
    /// function of that name in map order.
    pub fn resolve_call(&self, call: &PyExpr) -> (r: Option<FunctionId>)
        ensures
            match r {
                Some(f) => resolved_target(*call, self.project.map_view()) == Some(f@),
                None => resolved_target(*call, self.project.map_view()) is None,
            },
    {
        if let PyExpr::Call { func, .. } = call {
            if let PyExpr::Name { id } = &**func {
                match self.project.find_named(id) {
                    Some(i) => {
                        return Some(self.project.function_map[i].0.duplicate());
                    },
                    None => {},
                }
            }
        }
        None
    }
}

} // verus!
