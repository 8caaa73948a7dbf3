use vstd::prelude::*;

use crate::pyast::{block, block_of, opens_block, FStringPart, PyExpr, PyStmt};
use crate::taint::{expr_tainted, find_position, name_tainted, position_of, taint_of};

verus! {

/// Which parameters of a function carry taint, and whether its return value
/// does.
pub struct FunctionSummary {
    pub param_tainted: Vec<bool>,
    pub return_tainted: bool,
}

/// The view of a summary: (per-parameter taint, return taint).
pub type SummaryView = (Seq<bool>, bool);

impl FunctionSummary {
    pub open spec fn view(&self) -> SummaryView {
        (self.param_tainted@, self.return_tainted)
    }
}

/// The summary of a function with `n` parameters in which nothing is tainted.
pub open spec fn clean_summary(n: nat) -> SummaryView {
    (Seq::new(n, |i: int| false), false)
}

/// Whether two summaries are equal.
pub fn summary_eq(a: &FunctionSummary, b: &FunctionSummary) -> (r: bool)
    ensures
        r == (a.view() == b.view()),
{
    if a.return_tainted != b.return_tainted || a.param_tainted.len() != b.param_tainted.len() {
        return false;
    }
    let mut i: usize = 0;
    while i < a.param_tainted.len()
        invariant
            0 <= i <= a.param_tainted.len(),
            a.param_tainted.len() == b.param_tainted.len(),
            forall|j: int| 0 <= j < i ==> a.param_tainted@[j] == b.param_tainted@[j],
        decreases a.param_tainted.len() - i,
    {
        if a.param_tainted[i] != b.param_tainted[i] {
            return false;
        }
        i = i + 1;
    }
    assert(a.param_tainted@ =~= b.param_tainted@);
    true
}

/// A vector of `n` copies of `false`.
pub fn all_false(n: usize) -> (r: Vec<bool>)
    ensures
        r@ == Seq::new(n as nat, |i: int| false),
{
    let mut v: Vec<bool> = Vec::new();
    let mut i: usize = 0;
    while i < n
        invariant
            0 <= i <= n,
            v@ == Seq::new(i as nat, |j: int| false),
        decreases n - i,
    {
        v.push(false);
        i = i + 1;
        assert(v@ =~= Seq::new(i as nat, |j: int| false));
    }
    v
}

/// A copy of a vector of flags.
pub fn copy_flags(v: &Vec<bool>) -> (r: Vec<bool>)
    ensures
        r@ == v@,
{
    let mut out: Vec<bool> = Vec::new();
    let mut i: usize = 0;
    while i < v.len()
        invariant
            0 <= i <= v.len(),
            out@ == v@.subrange(0, i as int),
        decreases v.len() - i,
    {
        out.push(v[i]);
        i = i + 1;
        assert(out@ =~= v@.subrange(0, i as int));
    }
    assert(v@.subrange(0, v.len() as int) =~= v@);
    out
}

/// `t` is a plain name whose first position among `names` is `k`.
pub open spec fn targets_name_at(t: PyExpr, names: Seq<String>, k: int) -> bool {
    match t {
        PyExpr::Name { id } => position_of(names, id@) == Some(k),
        _ => false,
    }
}

/// The taint flags after a tainted value is assigned to `targets`: every
/// tracked name among the targets becomes tainted.
pub open spec fn assign_taint(names: Seq<String>, tainted: Seq<bool>, targets: Seq<PyExpr>) -> Seq<bool> {
    Seq::new(
        tainted.len(),
        |k: int| tainted[k] || exists|t: int| 0 <= t < targets.len() && targets_name_at(#[trigger] targets[t], names, k),
    )
}

/// The effect of one statement itself (not of its nested block) on the
/// summary state (parameter taint, return taint).
pub open spec fn summary_effect(names: Seq<String>, st: SummaryView, s: PyStmt) -> SummaryView {
    match s {
        PyStmt::Assign { targets, value } => if expr_tainted(value, names, st.0) {
            (assign_taint(names, st.0, targets@), st.1)
        } else {
            st
        },
        PyStmt::Return { returned } => match returned {
            Some(v) => if expr_tainted(v, names, st.0) {
                (st.0, true)
            } else {
                st
            },
            None => st,
        },
        _ => st,
    }
}

/// The summary state after analysing `s` and, after it, its nested block.
pub open spec fn summary_step(names: Seq<String>, st: SummaryView, s: PyStmt) -> SummaryView
    decreases s,
{
    let st1 = summary_effect(names, st, s);
    match s {
        PyStmt::FunctionDef { def } => summary_steps(names, st1, def.body@),
        PyStmt::Other { kind, suites, .. } => if opens_block(kind) && suites.len() > 0 {
            summary_steps(names, st1, suites@[0]@)
        } else {
            st1
        },
        _ => st1,
    }
}

/// The summary state after analysing each statement of `ss` in order.
pub open spec fn summary_steps(names: Seq<String>, st: SummaryView, ss: Seq<PyStmt>) -> SummaryView
    decreases ss,
{
    if ss.len() == 0 {
        st
    } else {
        summary_step(names, summary_steps(names, st, ss.subrange(0, ss.len() - 1)), ss[ss.len() - 1])
    }
}

/// Intra-procedural taint of a function's parameters and return value.
pub struct SummaryAnalyzer {
    pub param_names: Vec<String>,
    pub tainted_params: Vec<bool>,
    pub return_tainted: bool,
}

impl SummaryAnalyzer {
    pub open spec fn wf(&self) -> bool {
        self.param_names.len() == self.tainted_params.len()
    }

    pub open spec fn state(&self) -> SummaryView {
        (self.tainted_params@, self.return_tainted)
    }

    /// An analyzer for a function with these parameters, none of them tainted.
    pub fn new(param_names: Vec<String>) -> (r: Self)
        ensures
            r.wf(),
            r.param_names@ == param_names@,
            r.state() == clean_summary(param_names.len() as nat),
    {
        let n = param_names.len();
        SummaryAnalyzer { param_names, tainted_params: all_false(n), return_tainted: false }
    }

    /// Analyses a function body and returns the resulting summary.
    pub fn analyze(&mut self, body: &[PyStmt]) -> (r: FunctionSummary)
        requires
            old(self).wf(),
        ensures
            final(self).wf(),
            final(self).param_names == old(self).param_names,
            final(self).state() == summary_steps(old(self).param_names@, old(self).state(), body@),
            r.view() == final(self).state(),
    {
        let ghost st0 = self.state();
        let mut i: usize = 0;
        while i < body.len()
            invariant
                0 <= i <= body.len(),
                self.wf(),
                self.param_names == old(self).param_names,
                st0 == old(self).state(),
                self.state() == summary_steps(self.param_names@, st0, body@.subrange(0, i as int)),
            decreases body.len() - i,
        {
            self.visit_stmt(&body[i]);
            proof {
                let post = body@.subrange(0, i + 1);
                assert(post.subrange(0, post.len() - 1) =~= body@.subrange(0, i as int));
            }
            i = i + 1;
        }
        assert(body@.subrange(0, body.len() as int) =~= body@);
        FunctionSummary { param_tainted: copy_flags(&self.tainted_params), return_tainted: self.return_tainted }
    }

    /// Whether an expression carries taint under the current parameter taint.
    pub fn is_expr_tainted(&self, expr: &PyExpr) -> (r: bool)
        requires
            self.wf(),
        ensures
            r == expr_tainted(*expr, self.param_names@, self.tainted_params@),
    {
        taint_of(expr, &self.param_names, &self.tainted_params)
    }

    /// Marks every parameter named among `targets` as tainted.
    fn taint_targets(&mut self, targets: &Vec<PyExpr>)
        requires
            old(self).wf(),
        ensures
            final(self).wf(),
            final(self).param_names == old(self).param_names,
            final(self).return_tainted == old(self).return_tainted,
            final(self).tainted_params@ == assign_taint(
                old(self).param_names@,
                old(self).tainted_params@,
                targets@,
            ),
    {
        let ghost t0 = self.tainted_params@;
        let mut i: usize = 0;
        while i < targets.len()
            invariant
                0 <= i <= targets.len(),
                self.wf(),
                self.param_names == old(self).param_names,
                self.return_tainted == old(self).return_tainted,
                t0 == old(self).tainted_params@,
                self.tainted_params@ == assign_taint(self.param_names@, t0, targets@.subrange(0, i as int)),
            decreases targets.len() - i,
        {
            let ghost before = self.tainted_params@;
            let ghost mut hit: Option<int> = None;
            if let PyExpr::Name { id } = &targets[i] {
                if let Some(idx) = find_position(&self.param_names, id) {
                    self.tainted_params.set(idx, true);
                    proof {
                        hit = Some(idx as int);
                    }
                }
            }
            assert(forall|k: int| targets_name_at(targets@[i as int], self.param_names@, k) <==> hit == Some(k));
            assert(forall|k: int| 0 <= k < t0.len() ==> #[trigger] self.tainted_params@[k] == (before[k] || hit == Some(k)));
            proof {
                let pre = targets@.subrange(0, i as int);
                let post = targets@.subrange(0, i + 1);
                assert forall|k: int| 0 <= k < t0.len() implies #[trigger] self.tainted_params@[k] == assign_taint(
                    self.param_names@,
                    t0,
                    post,
                )[k] by {
                    assert(post[i as int] == targets@[i as int]);
                    if hit == Some(k) {
                        assert(targets_name_at(post[i as int], self.param_names@, k));
                    }
                    if exists|t: int| 0 <= t < pre.len() && targets_name_at(#[trigger] pre[t], self.param_names@, k) {
                        let t = choose|t: int| 0 <= t < pre.len() && targets_name_at(#[trigger] pre[t], self.param_names@, k);
                        assert(post[t] == pre[t]);
                        assert(targets_name_at(post[t], self.param_names@, k));
                    }
                    if exists|t: int| 0 <= t < post.len() && targets_name_at(#[trigger] post[t], self.param_names@, k) {
                        let t = choose|t: int| 0 <= t < post.len() && targets_name_at(#[trigger] post[t], self.param_names@, k);
                        if t < i {
                            assert(pre[t] == post[t]);
                            assert(targets_name_at(pre[t], self.param_names@, k));
                        } else {
                            assert(hit == Some(k));
                        }
                    }
                }
                assert(self.tainted_params@ =~= assign_taint(self.param_names@, t0, post));
            }
            i = i + 1;
        }
        assert(targets@.subrange(0, targets.len() as int) =~= targets@);
    }

    /// Applies a statement's own effect, then visits its nested block.
    pub fn visit_stmt(&mut self, stmt: &PyStmt)
        requires
            old(self).wf(),
        ensures
            final(self).wf(),
            final(self).param_names == old(self).param_names,
            final(self).state() == summary_step(old(self).param_names@, old(self).state(), *stmt),
        decreases stmt,
    {
        match stmt {
            PyStmt::Assign { targets, value } => {
                if self.is_expr_tainted(value) {
                    self.taint_targets(targets);
                }
            },
            PyStmt::Return { returned } => {
                if let Some(value) = returned {
                    if self.is_expr_tainted(value) {
                        self.return_tainted = true;
                    }
                }
            },
            _ => {},
        }
        let ghost st1 = self.state();
        assert(st1 == summary_effect(self.param_names@, old(self).state(), *stmt));
        let children = block(stmt);
        let mut i: usize = 0;
        while i < children.len()
            invariant
                0 <= i <= children.len(),
                children@ == block_of(*stmt),
                self.wf(),
                self.param_names == old(self).param_names,
                self.state() == summary_steps(self.param_names@, st1, children@.subrange(0, i as int)),
            decreases children.len() - i,
        {
            assert(decreases_to!(*stmt => children@[i as int]));
            self.visit_stmt(&children[i]);
            proof {
                let post = children@.subrange(0, i + 1);
                assert(post.subrange(0, post.len() - 1) =~= children@.subrange(0, i as int));
            }
            i = i + 1;
        }
        assert(children@.subrange(0, children.len() as int) =~= children@);
    }
}

/// With no tracked name tainted, no expression is tainted.
pub proof fn lemma_untainted_expr(e: PyExpr, names: Seq<String>, tainted: Seq<bool>)
    requires
        forall|k: int| 0 <= k < tainted.len() ==> !tainted[k],
        names.len() == tainted.len(),
    ensures
        !expr_tainted(e, names, tainted),
    decreases e,
{
    match e {
        PyExpr::Name { id } => {
            match position_of(names, id@) {
                Some(k) => {
                    assert(crate::taint::is_first_position(names, id@, k));
                },
                None => {},
            }
        },
        PyExpr::BinOp { op, left, right } => {
            lemma_untainted_expr(*left, names, tainted);
            lemma_untainted_expr(*right, names, tainted);
        },
        PyExpr::FString { parts } => {
            assert forall|i: int| 0 <= i < parts.len() implies !match #[trigger] parts@[i] {
                FStringPart::Value { expression } => expr_tainted(expression, names, tainted),
                _ => false,
            } by {
                if let FStringPart::Value { expression } = parts@[i] {
                    assert(decreases_to!(e => parts@[i]));
                    lemma_untainted_expr(expression, names, tainted);
                }
            }
        },
        PyExpr::Call { func, args, .. } => {
            assert forall|i: int| 0 <= i < args.len() implies !expr_tainted(#[trigger] args@[i], names, tainted) by {
                assert(decreases_to!(e => args@[i]));
                lemma_untainted_expr(args@[i], names, tainted);
            }
        },
        _ => {},
    }
}

/// Analysing statements from a state without taint leaves the state
/// without taint: a summary only reports taint that a source introduced.
pub proof fn lemma_untainted_steps(names: Seq<String>, n: nat, ss: Seq<PyStmt>)
    requires
        names.len() == n,
    ensures
        summary_steps(names, clean_summary(n), ss) == clean_summary(n),
    decreases ss,
{
    if ss.len() > 0 {
        lemma_untainted_steps(names, n, ss.subrange(0, ss.len() - 1));
        lemma_untainted_step(names, n, ss[ss.len() - 1]);
    }
}

/// One statement analysed from a state without taint leaves it without
/// taint.
pub proof fn lemma_untainted_step(names: Seq<String>, n: nat, s: PyStmt)
    requires
        names.len() == n,
    ensures
        summary_step(names, clean_summary(n), s) == clean_summary(n),
    decreases s,
{
    let st = clean_summary(n);
    match s {
        PyStmt::Assign { targets, value } => {
            lemma_untainted_expr(value, names, st.0);
        },
        PyStmt::Return { returned } => {
            if let Some(v) = returned {
                lemma_untainted_expr(v, names, st.0);
            }
        },
        _ => {},
    }
    assert(summary_effect(names, st, s) == st);
    match s {
        PyStmt::FunctionDef { def } => {
            lemma_untainted_steps(names, n, def.body@);
        },
        PyStmt::Other { kind, suites, .. } => {
            if opens_block(kind) && suites.len() > 0 {
                lemma_untainted_steps(names, n, suites@[0]@);
            }
        },
        _ => {},
    }
}

/// Taint only grows from `a` to `b`: a tainted parameter stays tainted and a
/// tainted return stays tainted.
pub open spec fn taint_grows(a: SummaryView, b: SummaryView) -> bool {
    &&& b.0.len() == a.0.len()
    &&& forall|k: int| 0 <= k < a.0.len() && a.0[k] ==> #[trigger] b.0[k]
    &&& a.1 ==> b.1
}

proof fn lemma_grows_trans(a: SummaryView, b: SummaryView, c: SummaryView)
    requires
        taint_grows(a, b),
        taint_grows(b, c),
    ensures
        taint_grows(a, c),
{
    assert forall|k: int| 0 <= k < a.0.len() && a.0[k] implies #[trigger] c.0[k] by {
        assert(b.0[k]);
    }
}

/// Analysing a statement never clears taint: a parameter or a return value
/// found tainted before stays tainted, whatever the statement (a later
/// untainted `return` included).
pub proof fn lemma_step_taint_grows(names: Seq<String>, st: SummaryView, s: PyStmt)
    ensures
        taint_grows(st, summary_step(names, st, s)),
    decreases s,
{
    let st1 = summary_effect(names, st, s);
    assert(taint_grows(st, st1));
    match s {
        PyStmt::FunctionDef { def } => {
            lemma_steps_taint_grows(names, st1, def.body@);
            lemma_grows_trans(st, st1, summary_step(names, st, s));
        },
        PyStmt::Other { kind, suites, .. } => {
            if opens_block(kind) && suites.len() > 0 {
                lemma_steps_taint_grows(names, st1, suites@[0]@);
                lemma_grows_trans(st, st1, summary_step(names, st, s));
            }
        },
        _ => {},
    }
}

/// Analysing a body never clears taint.
pub proof fn lemma_steps_taint_grows(names: Seq<String>, st: SummaryView, ss: Seq<PyStmt>)
    ensures
        taint_grows(st, summary_steps(names, st, ss)),
    decreases ss,
{
    if ss.len() > 0 {
        let init = ss.subrange(0, ss.len() - 1);
        lemma_steps_taint_grows(names, st, init);
        let mid = summary_steps(names, st, init);
        lemma_step_taint_grows(names, mid, ss[ss.len() - 1]);
        lemma_grows_trans(st, mid, summary_steps(names, st, ss));
    }
}

/// A `return` of a tainted value marks the return as tainted, and nothing
/// analysed after it in the same body clears that mark.
pub proof fn lemma_tainted_return_sticks(names: Seq<String>, st: SummaryView, ss: Seq<PyStmt>, j: int)
    requires
        0 <= j < ss.len(),
        ss[j] matches PyStmt::Return { returned } && returned matches Some(v) && expr_tainted(
            v,
            names,
            summary_steps(names, st, ss.subrange(0, j)).0,
        ),
    ensures
        summary_steps(names, st, ss).1,
    decreases ss.len(),
{
    let init = ss.subrange(0, ss.len() - 1);
    if j == ss.len() - 1 {
        assert(init =~= ss.subrange(0, j));
        let mid = summary_steps(names, st, init);
        assert(summary_effect(names, mid, ss[j]).1);
        assert(summary_step(names, mid, ss[j]) == summary_effect(names, mid, ss[j]));
    } else {
        assert(init.subrange(0, j) =~= ss.subrange(0, j));
        assert(init[j] == ss[j]);
        lemma_tainted_return_sticks(names, st, init, j);
        lemma_step_taint_grows(names, summary_steps(names, st, init), ss[ss.len() - 1]);
    }
}

} // verus!
