use vstd::prelude::*;

use crate::call_graph::CallGraph;
use crate::function_id::FunctionId;
use crate::project::{first_named, seq_map_get, FidView, ProjectIndex};
use crate::pyast::{FStringPart, PyExpr, PyNode, PyStmt};
use crate::summary::{
    all_false, clean_summary, lemma_untainted_steps, summary_eq, summary_steps, FunctionSummary,
    SummaryAnalyzer,
};
use crate::taint::{find_position, name_tainted, position_of};

verus! {

/// The definition stored under entry `i` of the project's function map.
pub open spec fn entry_def(p: ProjectIndex, i: int) -> crate::pyast::PyFunctionDef {
    let (m, f) = p.map_view()[i].1;
    p.modules@[m as int].functions@[f as int]
}

/// What a propagation walk reads: the function map, the summaries computed
/// so far, and the parameters of the walked function with their taint.
pub struct PropagationContext {
    pub mapv: Seq<(FidView, (usize, usize))>,
    pub summaries: Seq<Option<FunctionSummary>>,
    pub names: Seq<String>,
    pub tainted: Seq<bool>,
}

/// Positional argument `j` is a tainted parameter passed where the callee's
/// summary `cs` marks that position tainted.
pub open spec fn arg_passes_taint(c: PropagationContext, cs: FunctionSummary, args: Seq<PyExpr>, j: int) -> bool {
    &&& 0 <= j < args.len()
    &&& match args[j] {
        PyExpr::Name { id } => name_tainted(c.names, c.tainted, id@),
        _ => false,
    }
    &&& j < cs.param_tainted.len()
    &&& cs.param_tainted@[j]
}

/// `e` is a call of a plain name that resolves to a function with a
/// summary, passing taint into a position that summary marks tainted.
pub open spec fn call_taints_return(e: PyExpr, c: PropagationContext) -> bool {
    match e {
        PyExpr::Call { func, args, .. } => match *func {
            PyExpr::Name { id } => match first_named(c.mapv, id@) {
                Some(ci) => 0 <= ci < c.summaries.len() && match c.summaries[ci] {
                    Some(cs) => exists|j: int| arg_passes_taint(c, cs, args@, j),
                    None => false,
                },
                None => false,
            },
            _ => false,
        },
        _ => false,
    }
}

/// Some call in `e` (itself or a sub-expression) taints the return value.
pub open spec fn expr_taints_return(e: PyExpr, c: PropagationContext) -> bool
    decreases e,
{
    call_taints_return(e, c) || match e {
        PyExpr::Name { .. } => false,
        PyExpr::BinOp { left, right, .. } => expr_taints_return(*left, c) || expr_taints_return(*right, c),
        PyExpr::FString { parts } => parts_taints_return(parts@, c),
        PyExpr::Call { func, args, keywords, .. } => expr_taints_return(*func, c) || exprs_taints_return(
            args@,
            c,
        ) || exprs_taints_return(keywords@, c),
        PyExpr::Attribute { value, .. } => expr_taints_return(*value, c),
        PyExpr::Await { value } => expr_taints_return(*value, c),
        PyExpr::Other { children } => exprs_taints_return(children@, c),
    }
}

/// `expr_taints_return` over a list of expressions.
pub open spec fn exprs_taints_return(es: Seq<PyExpr>, c: PropagationContext) -> bool
    decreases es,
{
    if es.len() == 0 {
        false
    } else {
        exprs_taints_return(es.subrange(0, es.len() - 1), c) || expr_taints_return(es[es.len() - 1], c)
    }
}

/// `expr_taints_return` over the expressions of f-string parts.
pub open spec fn parts_taints_return(ps: Seq<FStringPart>, c: PropagationContext) -> bool
    decreases ps,
{
    if ps.len() == 0 {
        false
    } else {
        parts_taints_return(ps.subrange(0, ps.len() - 1), c) || match ps[ps.len() - 1] {
            FStringPart::Value { expression } => expr_taints_return(expression, c),
            FStringPart::FormatSpec { expression } => expr_taints_return(expression, c),
            FStringPart::Literal => false,
        }
    }
}

/// Some call among the expressions `s` walks taints the return value.
pub open spec fn stmt_taints_return(s: PyStmt, c: PropagationContext) -> bool
    decreases s,
{
    match s {
        PyStmt::FunctionDef { def } => exprs_taints_return(def.decorators@, c) || exprs_taints_return(
            def.header@,
            c,
        ) || stmts_taints_return(def.body@, c),
        PyStmt::Expr { value } => expr_taints_return(value, c),
        PyStmt::Assign { targets, value } => expr_taints_return(value, c) || exprs_taints_return(targets@, c),
        PyStmt::Return { returned } => match returned {
            Some(v) => expr_taints_return(v, c),
            None => false,
        },
        PyStmt::Other { nodes, .. } => nodes_taints_return(nodes@, c),
    }
}

/// `stmt_taints_return` over a statement list.
pub open spec fn stmts_taints_return(ss: Seq<PyStmt>, c: PropagationContext) -> bool
    decreases ss,
{
    if ss.len() == 0 {
        false
    } else {
        stmts_taints_return(ss.subrange(0, ss.len() - 1), c) || stmt_taints_return(ss[ss.len() - 1], c)
    }
}

/// `stmt_taints_return` over the nodes a statement walks.
pub open spec fn nodes_taints_return(ns: Seq<PyNode>, c: PropagationContext) -> bool
    decreases ns,
{
    if ns.len() == 0 {
        false
    } else {
        nodes_taints_return(ns.subrange(0, ns.len() - 1), c) || match ns[ns.len() - 1] {
            PyNode::Expr { expr } => expr_taints_return(expr, c),
            PyNode::Stmt { stmt } => stmt_taints_return(stmt, c),
        }
    }
}

/// No parameter is tainted.
pub open spec fn clean_context(c: PropagationContext) -> bool {
    c.names.len() == c.tainted.len() && forall|k: int| 0 <= k < c.tainted.len() ==> !c.tainted[k]
}

proof fn lemma_clean_call(e: PyExpr, c: PropagationContext)
    requires
        clean_context(c),
    ensures
        !call_taints_return(e, c),
{
    if let PyExpr::Call { args, .. } = e {
        assert forall|cs: FunctionSummary, j: int| !arg_passes_taint(c, cs, args@, j) by {
            if 0 <= j < args.len() {
                if let PyExpr::Name { id } = args@[j] {
                    if let Some(k) = position_of(c.names, id@) {
                        assert(crate::taint::is_first_position(c.names, id@, k));
                    }
                }
            }
        }
    }
}

proof fn lemma_clean_expr(e: PyExpr, c: PropagationContext)
    requires
        clean_context(c),
    ensures
        !expr_taints_return(e, c),
    decreases e,
{
    lemma_clean_call(e, c);
    match e {
        PyExpr::Name { .. } => {},
        PyExpr::BinOp { left, right, .. } => {
            lemma_clean_expr(*left, c);
            lemma_clean_expr(*right, c);
        },
        PyExpr::FString { parts } => {
            lemma_clean_parts(parts@, c);
        },
        PyExpr::Call { func, args, keywords, .. } => {
            lemma_clean_expr(*func, c);
            lemma_clean_exprs(args@, c);
            lemma_clean_exprs(keywords@, c);
        },
        PyExpr::Attribute { value, .. } => {
            lemma_clean_expr(*value, c);
        },
        PyExpr::Await { value } => {
            lemma_clean_expr(*value, c);
        },
        PyExpr::Other { children } => {
            lemma_clean_exprs(children@, c);
        },
    }
}

proof fn lemma_clean_exprs(es: Seq<PyExpr>, c: PropagationContext)
    requires
        clean_context(c),
    ensures
        !exprs_taints_return(es, c),
    decreases es,
{
    if es.len() > 0 {
        lemma_clean_exprs(es.subrange(0, es.len() - 1), c);
        lemma_clean_expr(es[es.len() - 1], c);
    }
}

proof fn lemma_clean_parts(ps: Seq<FStringPart>, c: PropagationContext)
    requires
        clean_context(c),
    ensures
        !parts_taints_return(ps, c),
    decreases ps,
{
    if ps.len() > 0 {
        lemma_clean_parts(ps.subrange(0, ps.len() - 1), c);
        match ps[ps.len() - 1] {
            FStringPart::Value { expression } => lemma_clean_expr(expression, c),
            FStringPart::FormatSpec { expression } => lemma_clean_expr(expression, c),
            FStringPart::Literal => {},
        }
    }
}

proof fn lemma_clean_stmt(s: PyStmt, c: PropagationContext)
    requires
        clean_context(c),
    ensures
        !stmt_taints_return(s, c),
    decreases s,
{
    match s {
        PyStmt::FunctionDef { def } => {
            lemma_clean_exprs(def.decorators@, c);
            lemma_clean_exprs(def.header@, c);
            lemma_clean_stmts(def.body@, c);
        },
        PyStmt::Expr { value } => lemma_clean_expr(value, c),
        PyStmt::Assign { targets, value } => {
            lemma_clean_expr(value, c);
            lemma_clean_exprs(targets@, c);
        },
        PyStmt::Return { returned } => {
            if let Some(v) = returned {
                lemma_clean_expr(v, c);
            }
        },
        PyStmt::Other { nodes, .. } => lemma_clean_nodes(nodes@, c),
    }
}

/// Without a tainted parameter, no call passes taint to a callee.
proof fn lemma_clean_stmts(ss: Seq<PyStmt>, c: PropagationContext)
    requires
        clean_context(c),
    ensures
        !stmts_taints_return(ss, c),
        forall|j: int| 0 <= j < ss.len() ==> !stmt_taints_return(#[trigger] ss[j], c),
    decreases ss,
{
    if ss.len() > 0 {
        lemma_clean_stmts(ss.subrange(0, ss.len() - 1), c);
        lemma_clean_stmt(ss[ss.len() - 1], c);
        assert forall|j: int| 0 <= j < ss.len() implies !stmt_taints_return(#[trigger] ss[j], c) by {
            if j < ss.len() - 1 {
                assert(ss.subrange(0, ss.len() - 1)[j] == ss[j]);
            }
        }
    }
}

proof fn lemma_clean_nodes(ns: Seq<PyNode>, c: PropagationContext)
    requires
        clean_context(c),
    ensures
        !nodes_taints_return(ns, c),
    decreases ns,
{
    if ns.len() > 0 {
        lemma_clean_nodes(ns.subrange(0, ns.len() - 1), c);
        match ns[ns.len() - 1] {
            PyNode::Expr { expr } => lemma_clean_expr(expr, c),
            PyNode::Stmt { stmt } => lemma_clean_stmt(stmt, c),
        }
    }
}

/// Function summaries computed to a fixed point over a project.
pub struct TaintEngine {
    pub project: ProjectIndex,
    pub call_graph: CallGraph,
    /// `summaries[i]` is the summary of the function under entry `i` of the
    /// project's function map, once computed.
    pub summaries: Vec<Option<FunctionSummary>>,
}

impl TaintEngine {
    pub open spec fn wf(&self) -> bool {
        &&& self.project.wf()
        &&& self.summaries.len() == self.project.function_map.len()
    }

    /// An engine with no summary computed yet.
    pub fn new(project: ProjectIndex, call_graph: CallGraph) -> (r: Self)
        requires
            project.wf(),
        ensures
            r.wf(),
            r.project == project,
            r.call_graph == call_graph,
            forall|i: int| 0 <= i < r.summaries.len() ==> r.summaries@[i] is None,
    {
        let n = project.function_map.len();
        let mut summaries: Vec<Option<FunctionSummary>> = Vec::new();
        let mut i: usize = 0;
        while i < n
            invariant
                0 <= i <= n,
                summaries.len() == i,
                forall|j: int| 0 <= j < i ==> summaries@[j] is None,
            decreases n - i,
        {
            summaries.push(None);
            i = i + 1;
        }
        TaintEngine { project, call_graph, summaries }
    }

    /// Computes the summary of every function: first by intra-procedural
    /// analysis, then by recomputing every summary until none changes.
    ///
    /// No summary ever carries taint: nothing marks a parameter tainted to
    /// begin with, so neither analysis can.
    pub fn run(&mut self)
        requires
            old(self).wf(),
        ensures
            final(self).wf(),
            final(self).project == old(self).project,
            final(self).call_graph == old(self).call_graph,
            forall|i: int|
                0 <= i < final(self).summaries.len() ==> {
                    let d = entry_def(final(self).project, i);
                    &&& final(self).summaries@[i] is Some
                    &&& (#[trigger] final(self).summaries@[i])->0.view() == summary_steps(
                        d.params@,
                        clean_summary(d.params.len() as nat),
                        d.body@,
                    )
                    &&& final(self).summaries@[i]->0.view() == clean_summary(d.params.len() as nat)
                },
    {
        let n = self.project.function_map.len();
        let mut i: usize = 0;
        while i < n
            invariant
                0 <= i <= n,
                self.wf(),
                n == self.project.function_map.len(),
                self.project == old(self).project,
                self.call_graph == old(self).call_graph,
                forall|j: int|
                    0 <= j < i ==> {
                        let d = entry_def(self.project, j);
                        &&& self.summaries@[j] is Some
                        &&& (#[trigger] self.summaries@[j])->0.view() == clean_summary(
                            d.params.len() as nat,
                        )
                    },
            decreases n - i,
        {
            let fid = self.project.function_map[i].0.duplicate();
            proof {
                self.lemma_entry_lookup(i as int, fid@);
            }
            let (func, _, _) = self.project.get_function(&fid).unwrap();
            let param_names = clone_names(&func.params);
            let mut analyzer = SummaryAnalyzer::new(param_names);
            let summary = analyzer.analyze(&func.body);
            proof {
                lemma_untainted_steps(func.params@, func.params.len() as nat, func.body@);
            }
            self.summaries.set(i, Some(summary));
            i = i + 1;
        }
        let mut changed = true;
        while changed
            invariant
                self.wf(),
                n == self.project.function_map.len(),
                self.project == old(self).project,
                self.call_graph == old(self).call_graph,
                forall|j: int|
                    0 <= j < n ==> {
                        let d = entry_def(self.project, j);
                        &&& self.summaries@[j] is Some
                        &&& (#[trigger] self.summaries@[j])->0.view() == clean_summary(
                            d.params.len() as nat,
                        )
                    },
            decreases (if changed { 1int } else { 0int }),
        {
            changed = false;
            let mut i: usize = 0;
            while i < n
                invariant
                    0 <= i <= n,
                    self.wf(),
                    !changed,
                    n == self.project.function_map.len(),
                    self.project == old(self).project,
                    self.call_graph == old(self).call_graph,
                    forall|j: int|
                        0 <= j < n ==> {
                            let d = entry_def(self.project, j);
                            &&& self.summaries@[j] is Some
                            &&& (#[trigger] self.summaries@[j])->0.view() == clean_summary(
                                d.params.len() as nat,
                            )
                        },
                decreases n - i,
            {
                let fid = self.project.function_map[i].0.duplicate();
                proof {
                    self.lemma_entry_lookup(i as int, fid@);
                }
                let new_summary = self.recompute_summary(&fid);
                let differs = match &self.summaries[i] {
                    Some(old) => !summary_eq(&new_summary, old),
                    None => true,
                };
                if differs {
                    self.summaries.set(i, Some(new_summary));
                    changed = true;
                }
                i = i + 1;
            }
        }
        proof {
            assert forall|j: int| 0 <= j < n implies {
                let d = entry_def(self.project, j);
                (#[trigger] self.summaries@[j])->0.view() == summary_steps(
                    d.params@,
                    clean_summary(d.params.len() as nat),
                    d.body@,
                )
            } by {
                let d = entry_def(self.project, j);
                lemma_untainted_steps(d.params@, d.params.len() as nat, d.body@);
            }
        }
    }

    /// Entry `i` of the map is what a lookup of its key finds.
    proof fn lemma_entry_lookup(&self, i: int, k: (Seq<char>, Seq<char>))
        requires
            self.wf(),
            0 <= i < self.project.function_map.len(),
            self.project.map_view()[i].0 == k,
        ensures
            seq_map_get(self.project.map_view(), k) == Some(self.project.map_view()[i].1),
    {
        let s = self.project.map_view();
        assert(exists|c: int| 0 <= c < s.len() && s[c].0 == k);
        let c = choose|c: int| 0 <= c < s.len() && s[c].0 == k;
        assert(c == i);
    }

    /// What a propagation walk over a function with parameters `names`,
    /// tainted as `tainted`, reads of this engine.
    pub open spec fn propagation_context(&self, names: Seq<String>, tainted: Seq<bool>) -> PropagationContext {
        PropagationContext {
            mapv: self.project.map_view(),
            summaries: self.summaries@,
            names,
            tainted,
        }
    }

    /// Recomputes the summary of `fid` from the summaries of the functions it
    /// calls: a call passing a tainted parameter where the callee's summary
    /// marks that argument position tainted taints the return value.
    /// Parameters start untainted, so the result carries no taint.
    pub fn recompute_summary(&self, fid: &FunctionId) -> (r: FunctionSummary)
        requires
            self.wf(),
            seq_map_get(self.project.map_view(), fid@) is Some,
        ensures
            ({
                let (m, f) = seq_map_get(self.project.map_view(), fid@)->0;
                r.view() == clean_summary(
                    self.project.modules@[m as int].functions@[f as int].params.len() as nat,
                )
            }),
    {
        let (func, _, _) = self.project.get_function(fid).unwrap();
        let param_names = &func.params;
        let mut summary = FunctionSummary {
            param_tainted: all_false(param_names.len()),
            return_tainted: false,
        };
        let ghost ctx = self.propagation_context(param_names@, summary.param_tainted@);
        proof {
            lemma_clean_stmts(func.body@, ctx);
        }
        let mut i: usize = 0;
        while i < func.body.len()
            invariant
                0 <= i <= func.body.len(),
                self.wf(),
                summary.param_tainted.len() == param_names.len(),
                ctx == self.propagation_context(param_names@, summary.param_tainted@),
                summary.view() == clean_summary(param_names.len() as nat),
                forall|j: int| 0 <= j < func.body.len() ==> !stmt_taints_return(#[trigger] func.body@[j], ctx),
            decreases func.body.len() - i,
        {
            self.propagate_stmt(&func.body[i], param_names, &mut summary);
            i = i + 1;
        }
        summary
    }

    /// Walks every expression of a statement, in source order; the return
    /// value becomes tainted when a call in it passes taint to a callee (see
    /// `stmt_taints_return`).
    #[verifier::loop_isolation(false)]
    fn propagate_stmt(&self, stmt: &PyStmt, param_names: &Vec<String>, summary: &mut FunctionSummary)
        requires
            self.wf(),
            old(summary).param_tainted.len() == param_names.len(),
        ensures
            final(summary).param_tainted == old(summary).param_tainted,
            final(summary).return_tainted == (old(summary).return_tainted || stmt_taints_return(
                *stmt,
                self.propagation_context(param_names@, old(summary).param_tainted@),
            )),
        decreases stmt,
    {
        let ghost ctx = self.propagation_context(param_names@, summary.param_tainted@);
        let ghost r0 = summary.return_tainted;
        match stmt {
            PyStmt::FunctionDef { def } => {
                self.propagate_exprs(&def.decorators, param_names, summary);
                self.propagate_exprs(&def.header, param_names, summary);
                let ghost r1 = summary.return_tainted;
                let mut i: usize = 0;
                while i < def.body.len()
                    invariant
                        0 <= i <= def.body.len(),
                        self.wf(),
                        summary.param_tainted == old(summary).param_tainted,
                        old(summary).param_tainted.len() == param_names.len(),
                        summary.return_tainted == (r1 || stmts_taints_return(
                            def.body@.subrange(0, i as int),
                            ctx,
                        )),
                    decreases def.body.len() - i,
                {
                    let ghost post = def.body@.subrange(0, i + 1);
                    assert(post.subrange(0, post.len() - 1) =~= def.body@.subrange(0, i as int));
                    assert(decreases_to!(*stmt => def.body@[i as int]));
                    self.propagate_stmt(&def.body[i], param_names, summary);
                    i = i + 1;
                }
                assert(def.body@.subrange(0, def.body.len() as int) =~= def.body@);
            },
            PyStmt::Expr { value } => {
                self.propagate_expr(value, param_names, summary);
            },
            PyStmt::Assign { targets, value } => {
                self.propagate_expr(value, param_names, summary);
                self.propagate_exprs(targets, param_names, summary);
            },
            PyStmt::Return { returned } => {
                if let Some(value) = returned {
                    self.propagate_expr(value, param_names, summary);
                }
            },
            PyStmt::Other { nodes, .. } => {
                let mut i: usize = 0;
                while i < nodes.len()
                    invariant
                        0 <= i <= nodes.len(),
                        self.wf(),
                        summary.param_tainted == old(summary).param_tainted,
                        old(summary).param_tainted.len() == param_names.len(),
                        summary.return_tainted == (r0 || nodes_taints_return(
                            nodes@.subrange(0, i as int),
                            ctx,
                        )),
                    decreases nodes.len() - i,
                {
                    let ghost post = nodes@.subrange(0, i + 1);
                    assert(post.subrange(0, post.len() - 1) =~= nodes@.subrange(0, i as int));
                    match &nodes[i] {
                        PyNode::Expr { expr } => {
                            assert(decreases_to!(*stmt => nodes@[i as int]));
                            self.propagate_expr(expr, param_names, summary);
                        },
                        PyNode::Stmt { stmt: inner } => {
                            assert(decreases_to!(*stmt => nodes@[i as int]));
                            self.propagate_stmt(inner, param_names, summary);
                        },
                    }
                    i = i + 1;
                }
                assert(nodes@.subrange(0, nodes.len() as int) =~= nodes@);
            },
        }
    }

    /// Walks each expression of a list.
    fn propagate_exprs(&self, exprs: &Vec<PyExpr>, param_names: &Vec<String>, summary: &mut FunctionSummary)
        requires
            self.wf(),
            old(summary).param_tainted.len() == param_names.len(),
        ensures
            final(summary).param_tainted == old(summary).param_tainted,
            final(summary).return_tainted == (old(summary).return_tainted || exprs_taints_return(
                exprs@,
                self.propagation_context(param_names@, old(summary).param_tainted@),
            )),
    {
        let ghost ctx = self.propagation_context(param_names@, summary.param_tainted@);
        let mut i: usize = 0;
        while i < exprs.len()
            invariant
                0 <= i <= exprs.len(),
                self.wf(),
                summary.param_tainted == old(summary).param_tainted,
                old(summary).param_tainted.len() == param_names.len(),
                ctx == self.propagation_context(param_names@, old(summary).param_tainted@),
                summary.return_tainted == (old(summary).return_tainted || exprs_taints_return(
                    exprs@.subrange(0, i as int),
                    ctx,
                )),
            decreases exprs.len() - i,
        {
            let ghost post = exprs@.subrange(0, i + 1);
            assert(post.subrange(0, post.len() - 1) =~= exprs@.subrange(0, i as int));
            self.propagate_expr(&exprs[i], param_names, summary);
            i = i + 1;
        }
        assert(exprs@.subrange(0, exprs.len() as int) =~= exprs@);
    }

    /// At a call of a known function, taints the return value when a tainted
    /// parameter is passed in a position the callee's summary marks tainted;
    /// then walks the sub-expressions.
    #[verifier::loop_isolation(false)]
    fn propagate_expr(&self, expr: &PyExpr, param_names: &Vec<String>, summary: &mut FunctionSummary)
        requires
            self.wf(),
            old(summary).param_tainted.len() == param_names.len(),
        ensures
            final(summary).param_tainted == old(summary).param_tainted,
            final(summary).return_tainted == (old(summary).return_tainted || expr_taints_return(
                *expr,
                self.propagation_context(param_names@, old(summary).param_tainted@),
            )),
        decreases expr, 1int,
    {
        let ghost ctx = self.propagation_context(param_names@, summary.param_tainted@);
        let ghost r0 = summary.return_tainted;
        if let PyExpr::Call { func, args, .. } = expr {
            let callee = match &**func {
                PyExpr::Name { id } => self.project.find_named(id),
                _ => None,
            };
            if let Some(ci) = callee {
                if let Some(callee_summary) = &self.summaries[ci] {
                    let mut arg_idx: usize = 0;
                    while arg_idx < args.len()
                        invariant
                            0 <= arg_idx <= args.len(),
                            summary.param_tainted == old(summary).param_tainted,
                            old(summary).param_tainted.len() == param_names.len(),
                            summary.return_tainted == (r0 || exists|j: int|
                                0 <= j < arg_idx && arg_passes_taint(ctx, *callee_summary, args@, j)),
                        decreases args.len() - arg_idx,
                    {
                        let arg_tainted = match &args[arg_idx] {
                            PyExpr::Name { id } => match find_position(param_names, id) {
                                Some(idx) => summary.param_tainted[idx],
                                None => false,
                            },
                            _ => false,
                        };
                        assert(arg_tainted == match args@[arg_idx as int] {
                            PyExpr::Name { id } => name_tainted(ctx.names, ctx.tainted, id@),
                            _ => false,
                        });
                        if arg_tainted {
                            if arg_idx < callee_summary.param_tainted.len()
                                && callee_summary.param_tainted[arg_idx] {
                                summary.return_tainted = true;
                                assert(arg_passes_taint(ctx, *callee_summary, args@, arg_idx as int));
                            }
                        }
                        arg_idx = arg_idx + 1;
                    }
                }
            }
        }
        assert(summary.return_tainted == (r0 || call_taints_return(*expr, ctx)));
        let ghost r1 = summary.return_tainted;
        match expr {
            PyExpr::Name { .. } => {},
            PyExpr::BinOp { left, right, .. } => {
                self.propagate_expr(left, param_names, summary);
                self.propagate_expr(right, param_names, summary);
            },
            PyExpr::FString { parts } => {
                let mut i: usize = 0;
                while i < parts.len()
                    invariant
                        0 <= i <= parts.len(),
                        self.wf(),
                        summary.param_tainted == old(summary).param_tainted,
                        old(summary).param_tainted.len() == param_names.len(),
                        summary.return_tainted == (r1 || parts_taints_return(
                            parts@.subrange(0, i as int),
                            ctx,
                        )),
                    decreases parts.len() - i,
                {
                    let ghost post = parts@.subrange(0, i + 1);
                    assert(post.subrange(0, post.len() - 1) =~= parts@.subrange(0, i as int));
                    match &parts[i] {
                        FStringPart::Value { expression } | FStringPart::FormatSpec { expression } => {
                            assert(decreases_to!(*expr => parts@[i as int]));
                            self.propagate_expr(expression, param_names, summary);
                        },
                        FStringPart::Literal => {},
                    }
                    i = i + 1;
                }
                assert(parts@.subrange(0, parts.len() as int) =~= parts@);
            },
            PyExpr::Call { func, args, keywords, .. } => {
                self.propagate_expr(func, param_names, summary);
                self.propagate_children(expr, args, param_names, summary);
                self.propagate_children(expr, keywords, param_names, summary);
            },
            PyExpr::Attribute { value, .. } => {
                self.propagate_expr(value, param_names, summary);
            },
            PyExpr::Await { value } => {
                self.propagate_expr(value, param_names, summary);
            },
            PyExpr::Other { children } => {
                self.propagate_children(expr, children, param_names, summary);
            },
        }
    }

    /// Walks the sub-expressions `children` of `parent`.
    fn propagate_children(
        &self,
        parent: &PyExpr,
        children: &Vec<PyExpr>,
        param_names: &Vec<String>,
        summary: &mut FunctionSummary,
    )
        requires
            self.wf(),
            old(summary).param_tainted.len() == param_names.len(),
            forall|i: int| 0 <= i < children.len() ==> decreases_to!(*parent => #[trigger] children@[i]),
        ensures
            final(summary).param_tainted == old(summary).param_tainted,
            final(summary).return_tainted == (old(summary).return_tainted || exprs_taints_return(
                children@,
                self.propagation_context(param_names@, old(summary).param_tainted@),
            )),
        decreases parent, 0int,
    {
        let ghost ctx = self.propagation_context(param_names@, summary.param_tainted@);
        let mut i: usize = 0;
        while i < children.len()
            invariant
                0 <= i <= children.len(),
                self.wf(),
                summary.param_tainted == old(summary).param_tainted,
                old(summary).param_tainted.len() == param_names.len(),
                ctx == self.propagation_context(param_names@, old(summary).param_tainted@),
                forall|j: int| 0 <= j < children.len() ==> decreases_to!(*parent => #[trigger] children@[j]),
                summary.return_tainted == (old(summary).return_tainted || exprs_taints_return(
                    children@.subrange(0, i as int),
                    ctx,
                )),
            decreases children.len() - i,
        {
            let ghost post = children@.subrange(0, i + 1);
            assert(post.subrange(0, post.len() - 1) =~= children@.subrange(0, i as int));
            self.propagate_expr(&children[i], param_names, summary);
            i = i + 1;
        }
        assert(children@.subrange(0, children.len() as int) =~= children@);
    }
}

/// A copy of a list of names.
pub fn clone_names(names: &Vec<String>) -> (r: Vec<String>)
    ensures
        r@ == names@,
{
    let mut out: Vec<String> = Vec::new();
    let mut i: usize = 0;
    while i < names.len()
        invariant
            0 <= i <= names.len(),
            out@ == names@.subrange(0, i as int),
        decreases names.len() - i,
    {
        out.push(names[i].clone());
        i = i + 1;
        assert(out@ =~= names@.subrange(0, i as int));
    }
    assert(names@.subrange(0, names.len() as int) =~= names@);
    out
}

} // verus!
