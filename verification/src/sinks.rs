use vstd::prelude::*;
use vstd::utf8::encode_utf8;

use crate::engine::{clone_names, entry_def, TaintEngine};
use crate::lines::{lemma_line_breaks_bounded, line_breaks_before, line_number};
use crate::project::{source_fits, ProjectIndex};
use crate::pyast::{FStringPart, PyExpr, PyFunctionDef, PyNode, PyStmt};
use crate::rules::{
    crypto_name, is_crypto_name, is_route_method, is_sink_function, is_sink_method, route_method_name, sink_function_name,
    sink_method_name,
};
use crate::taint::{expr_tainted, find_position, position_of, taint_of};

verus! {

/// A finding of the analysis.
pub struct Vulnerability {
    pub id: String,
    pub message: String,
    pub severity: String,
    pub file: String,
    pub line: usize,
    pub recommendation: String,
}

/// The view of a finding.
pub struct VulnerabilityView {
    pub id: Seq<char>,
    pub message: Seq<char>,
    pub severity: Seq<char>,
    pub file: Seq<char>,
    pub line: int,
    pub recommendation: Seq<char>,
}

impl Vulnerability {
    pub open spec fn view(&self) -> VulnerabilityView {
        VulnerabilityView {
            id: self.id@,
            message: self.message@,
            severity: self.severity@,
            file: self.file@,
            line: self.line as int,
            recommendation: self.recommendation@,
        }
    }
}

/// The views of a list of findings.
pub open spec fn findings_view(v: Seq<Vulnerability>) -> Seq<VulnerabilityView> {
    v.map_values(|x: Vulnerability| x.view())
}

/// An SQL injection reported in `file` at `line`.
pub open spec fn sql_injection_finding(file: Seq<char>, line: int) -> VulnerabilityView {
    VulnerabilityView {
        id: "TOTAL-SQL-001"@,
        message: "SQL Injection: tainted data in DB sink"@,
        severity: "CRITICAL"@,
        file,
        line,
        recommendation: "Use parameterized queries or Sentinel Shield"@,
    }
}

/// Software cryptography reported by Sentinel Guard in `file` at `line`,
/// with the advice to offload it to hardware.
pub open spec fn crypto_finding(file: Seq<char>, line: int) -> VulnerabilityView {
    VulnerabilityView {
        id: "TOTAL-CRYPTO-001"@,
        message: "Sentinel Guard: software cryptography call"@,
        severity: "INFO"@,
        file,
        line,
        recommendation: "Offload cryptography to hardware (HSM/FPGA) for performance and compliance"@,
    }
}

/// The one-based line of a call starting at byte `offset` of `source`.
pub open spec fn call_line(source: Seq<char>, offset: u32) -> int {
    line_breaks_before(encode_utf8(source), offset as int) + 1int
}

/// The callee of a call is software cryptography: a method or a function
/// named `encrypt`, `sign`, `PBKDF2` or `hash`.
pub open spec fn is_crypto_callee(func: PyExpr) -> bool {
    match func {
        PyExpr::Attribute { attr, .. } => is_crypto_name(attr@),
        PyExpr::Name { id } => is_crypto_name(id@),
        _ => false,
    }
}

/// The callee of a call is a database sink: a method `execute`,
/// `executemany`, `raw` or `run_sql`, or a plain `execute` or `run_sql`.
pub open spec fn is_sink_callee(func: PyExpr) -> bool {
    match func {
        PyExpr::Attribute { attr, .. } => is_sink_method(attr@),
        PyExpr::Name { id } => is_sink_function(id@),
        _ => false,
    }
}

/// A decorator that marks a web route: a call of a method `route`, `get`,
/// `post`, `put` or `delete` (`@app.route("/")`, `@app.get("/")`).
pub open spec fn is_route_decorator(d: PyExpr) -> bool {
    match d {
        PyExpr::Call { func, .. } => match *func {
            PyExpr::Attribute { attr, .. } => is_route_method(attr@),
            _ => false,
        },
        _ => false,
    }
}

/// The SQL injection for `e` itself: one when `e` calls a sink with a
/// tainted positional argument.
pub open spec fn sql_finding_of(
    e: PyExpr,
    names: Seq<String>,
    tainted: Seq<bool>,
    source: Seq<char>,
    file: Seq<char>,
) -> Seq<VulnerabilityView> {
    match e {
        PyExpr::Call { func, args, offset, .. } => if is_sink_callee(*func) && exists|i: int|
            0 <= i < args.len() && expr_tainted(#[trigger] args@[i], names, tainted) {
            seq![sql_injection_finding(file, call_line(source, offset))]
        } else {
            Seq::empty()
        },
        _ => Seq::empty(),
    }
}

/// The Sentinel Guard finding for `e` itself: one when `e` calls software
/// cryptography.
pub open spec fn crypto_finding_of(e: PyExpr, source: Seq<char>, file: Seq<char>) -> Seq<VulnerabilityView> {
    match e {
        PyExpr::Call { func, offset, .. } => if is_crypto_callee(*func) {
            seq![crypto_finding(file, call_line(source, offset))]
        } else {
            Seq::empty()
        },
        _ => Seq::empty(),
    }
}

/// The findings for `e` itself: an SQL injection, then a cryptography call.
pub open spec fn call_finding(
    e: PyExpr,
    names: Seq<String>,
    tainted: Seq<bool>,
    source: Seq<char>,
    file: Seq<char>,
) -> Seq<VulnerabilityView> {
    sql_finding_of(e, names, tainted, source, file) + crypto_finding_of(e, source, file)
}

/// The findings in `e` and its sub-expressions, in source order.
pub open spec fn expr_findings(
    e: PyExpr,
    names: Seq<String>,
    tainted: Seq<bool>,
    source: Seq<char>,
    file: Seq<char>,
) -> Seq<VulnerabilityView>
    decreases e,
{
    call_finding(e, names, tainted, source, file) + match e {
        PyExpr::Name { .. } => Seq::empty(),
        PyExpr::BinOp { left, right, .. } => expr_findings(*left, names, tainted, source, file)
            + expr_findings(*right, names, tainted, source, file),
        PyExpr::FString { parts } => parts_findings(parts@, names, tainted, source, file),
        PyExpr::Call { func, args, keywords, .. } => expr_findings(
            *func,
            names,
            tainted,
            source,
            file,
        ) + exprs_findings(args@, names, tainted, source, file) + exprs_findings(
            keywords@,
            names,
            tainted,
            source,
            file,
        ),
        PyExpr::Attribute { value, .. } => expr_findings(*value, names, tainted, source, file),
        // an awaited call is no database sink; it is still walked
        PyExpr::Await { value } => match *value {
            PyExpr::Call { func, args, keywords, .. } => crypto_finding_of(*value, source, file)
                + expr_findings(*func, names, tainted, source, file) + exprs_findings(
                args@,
                names,
                tainted,
                source,
                file,
            ) + exprs_findings(keywords@, names, tainted, source, file),
            _ => expr_findings(*value, names, tainted, source, file),
        },
        PyExpr::Other { children } => exprs_findings(children@, names, tainted, source, file),
    }
}

/// `expr_findings` over a list of expressions.
pub open spec fn exprs_findings(
    es: Seq<PyExpr>,
    names: Seq<String>,
    tainted: Seq<bool>,
    source: Seq<char>,
    file: Seq<char>,
) -> Seq<VulnerabilityView>
    decreases es,
{
    if es.len() == 0 {
        Seq::empty()
    } else {
        exprs_findings(es.subrange(0, es.len() - 1), names, tainted, source, file) + expr_findings(
            es[es.len() - 1],
            names,
            tainted,
            source,
            file,
        )
    }
}

/// `expr_findings` over the expressions of f-string parts.
pub open spec fn parts_findings(
    ps: Seq<FStringPart>,
    names: Seq<String>,
    tainted: Seq<bool>,
    source: Seq<char>,
    file: Seq<char>,
) -> Seq<VulnerabilityView>
    decreases ps,
{
    if ps.len() == 0 {
        Seq::empty()
    } else {
        parts_findings(ps.subrange(0, ps.len() - 1), names, tainted, source, file) + match ps[ps.len()
            - 1] {
            FStringPart::Value { expression } => expr_findings(expression, names, tainted, source, file),
            FStringPart::FormatSpec { expression } => expr_findings(
                expression,
                names,
                tainted,
                source,
                file,
            ),
            FStringPart::Literal => Seq::empty(),
        }
    }
}

/// The state of a scan: tracked names, their taint, findings so far.
pub type ScanState = (Seq<String>, Seq<bool>, Seq<VulnerabilityView>);

/// Binding a tainted value to `t`: a tracked name becomes tainted, an
/// untracked name is tracked as tainted.
pub open spec fn bind_tainted(names: Seq<String>, tainted: Seq<bool>, t: PyExpr) -> (Seq<String>, Seq<bool>) {
    match t {
        PyExpr::Name { id } => match position_of(names, id@) {
            Some(k) => (names, tainted.update(k, true)),
            None => (names.push(id), tainted.push(true)),
        },
        _ => (names, tainted),
    }
}

/// Binding a tainted value to each of `ts` in order.
pub open spec fn bind_all_tainted(names: Seq<String>, tainted: Seq<bool>, ts: Seq<PyExpr>) -> (
    Seq<String>,
    Seq<bool>,
)
    decreases ts.len(),
{
    if ts.len() == 0 {
        (names, tainted)
    } else {
        let prev = bind_all_tainted(names, tainted, ts.drop_last());
        bind_tainted(prev.0, prev.1, ts.last())
    }
}

/// The scan state after `s` and everything nested in it: findings of its
/// expressions in source order; an assignment of a tainted value taints the
/// names it binds.
pub open spec fn stmt_scan(st: ScanState, s: PyStmt, source: Seq<char>, file: Seq<char>) -> ScanState
    decreases s,
{
    match s {
        PyStmt::FunctionDef { def } => stmts_scan(
            (
                st.0,
                st.1,
                st.2 + exprs_findings(def.decorators@, st.0, st.1, source, file) + exprs_findings(
                    def.header@,
                    st.0,
                    st.1,
                    source,
                    file,
                ),
            ),
            def.body@,
            source,
            file,
        ),
        PyStmt::Expr { value } => (st.0, st.1, st.2 + expr_findings(value, st.0, st.1, source, file)),
        PyStmt::Assign { targets, value } => {
            let found = st.2 + expr_findings(value, st.0, st.1, source, file) + exprs_findings(
                targets@,
                st.0,
                st.1,
                source,
                file,
            );
            if expr_tainted(value, st.0, st.1) {
                let b = bind_all_tainted(st.0, st.1, targets@);
                (b.0, b.1, found)
            } else {
                (st.0, st.1, found)
            }
        },
        PyStmt::Return { returned } => match returned {
            Some(v) => (st.0, st.1, st.2 + expr_findings(v, st.0, st.1, source, file)),
            None => st,
        },
        PyStmt::Other { nodes, .. } => nodes_scan(st, nodes@, source, file),
    }
}

/// `stmt_scan` over a statement list.
pub open spec fn stmts_scan(st: ScanState, ss: Seq<PyStmt>, source: Seq<char>, file: Seq<char>) -> ScanState
    decreases ss,
{
    if ss.len() == 0 {
        st
    } else {
        stmt_scan(stmts_scan(st, ss.subrange(0, ss.len() - 1), source, file), ss[ss.len() - 1], source, file)
    }
}

/// `stmt_scan` over the nodes a statement walks.
pub open spec fn nodes_scan(st: ScanState, ns: Seq<PyNode>, source: Seq<char>, file: Seq<char>) -> ScanState
    decreases ns,
{
    if ns.len() == 0 {
        st
    } else {
        let prev = nodes_scan(st, ns.subrange(0, ns.len() - 1), source, file);
        match ns[ns.len() - 1] {
            PyNode::Expr { expr } => (prev.0, prev.1, prev.2 + expr_findings(expr, prev.0, prev.1, source, file)),
            PyNode::Stmt { stmt } => stmt_scan(prev, stmt, source, file),
        }
    }
}

/// Some decorator of `d` marks a web route.
pub open spec fn has_route_decorator(d: PyFunctionDef) -> bool {
    exists|i: int| 0 <= i < d.decorators.len() && is_route_decorator(#[trigger] d.decorators@[i])
}

/// The scan state at the start of `d`'s body: its parameters are tracked,
/// tainted exactly when `d` is a web route.
pub open spec fn initial_scan(d: PyFunctionDef) -> ScanState {
    (d.params@, Seq::new(d.params.len() as nat, |i: int| has_route_decorator(d)), Seq::empty())
}

/// The findings in the body of `d`.
pub open spec fn function_findings(d: PyFunctionDef, source: Seq<char>, file: Seq<char>) -> Seq<
    VulnerabilityView,
> {
    stmts_scan(initial_scan(d), d.body@, source, file).2
}

/// The findings of the first `n` functions of the project's map, in map
/// order.
pub open spec fn project_findings(p: ProjectIndex, n: int) -> Seq<VulnerabilityView>
    decreases n,
{
    if n <= 0 {
        Seq::empty()
    } else {
        let (m, _) = p.map_view()[n - 1].1;
        project_findings(p, n - 1) + function_findings(
            entry_def(p, n - 1),
            p.modules@[m as int].source@,
            p.modules@[m as int].path@,
        )
    }
}

/// Whether a decorator marks a web route.
pub fn is_web_route(decorator: &PyExpr) -> (r: bool)
    ensures
        r == is_route_decorator(*decorator),
{
    if let PyExpr::Call { func, .. } = decorator {
        if let PyExpr::Attribute { attr, .. } = &**func {
            return route_method_name(attr);
        }
    }
    false
}

/// Walks a function body: tracks which names carry taint and reports every
/// sink call with a tainted argument.
pub struct SinkVisitor<'a> {
    pub source: &'a String,
    pub file: String,
    pub names: Vec<String>,
    pub tainted: Vec<bool>,
    pub findings: Vec<Vulnerability>,
}

impl<'a> SinkVisitor<'a> {
    pub open spec fn wf(&self) -> bool {
        &&& self.names.len() == self.tainted.len()
        &&& source_fits(self.source@)
    }

    pub open spec fn state(&self) -> ScanState {
        (self.names@, self.tainted@, findings_view(self.findings@))
    }

    /// Whether an argument carries taint.
    pub fn is_arg_tainted(&self, expr: &PyExpr) -> (r: bool)
        requires
            self.wf(),
        ensures
            r == expr_tainted(*expr, self.names@, self.tainted@),
    {
        taint_of(expr, &self.names, &self.tainted)
    }

    /// Whether `func` is the callee of a database sink.
    fn is_sink(func: &PyExpr) -> (r: bool)
        ensures
            r == is_sink_callee(*func),
    {
        match func {
            PyExpr::Attribute { attr, .. } => sink_method_name(attr),
            PyExpr::Name { id } => sink_function_name(id),
            _ => false,
        }
    }

    /// A finding of kind `id` for the call at byte `offset` of the source.
    fn finding_at(&self, offset: u32, sql: bool) -> (v: Vulnerability)
        requires
            self.wf(),
        ensures
            sql ==> v.view() == sql_injection_finding(self.file@, call_line(self.source@, offset)),
            !sql ==> v.view() == crypto_finding(self.file@, call_line(self.source@, offset)),
    {
        let line = line_number(self.source.as_str(), offset);
        proof {
            lemma_line_breaks_bounded(encode_utf8(self.source@), offset as int);
        }
        if sql {
            Vulnerability {
                id: String::from_str("TOTAL-SQL-001"),
                message: String::from_str("SQL Injection: tainted data in DB sink"),
                severity: String::from_str("CRITICAL"),
                file: self.file.clone(),
                line,
                recommendation: String::from_str("Use parameterized queries or Sentinel Shield"),
            }
        } else {
            Vulnerability {
                id: String::from_str("TOTAL-CRYPTO-001"),
                message: String::from_str("Sentinel Guard: software cryptography call"),
                severity: String::from_str("INFO"),
                file: self.file.clone(),
                line,
                recommendation: String::from_str(
                    "Offload cryptography to hardware (HSM/FPGA) for performance and compliance",
                ),
            }
        }
    }

    /// Reports `e` when it is a sink call with a tainted argument.
    #[verifier::loop_isolation(false)]
    fn check_sql(&mut self, e: &PyExpr)
        requires
            old(self).wf(),
        ensures
            final(self).wf(),
            final(self).source == old(self).source,
            final(self).file == old(self).file,
            final(self).state() == (
                old(self).state().0,
                old(self).state().1,
                old(self).state().2 + sql_finding_of(
                    *e,
                    old(self).names@,
                    old(self).tainted@,
                    old(self).source@,
                    old(self).file@,
                ),
            ),
    {
        if let PyExpr::Call { func, args, offset, .. } = e {
            if Self::is_sink(func) {
                let mut i: usize = 0;
                while i < args.len()
                    invariant
                        0 <= i <= args.len(),
                        self.wf(),
                        self.source == old(self).source,
                        self.file == old(self).file,
                        self.state() == old(self).state(),
                        forall|j: int|
                            0 <= j < i ==> !expr_tainted(#[trigger] args@[j], self.names@, self.tainted@),
                    decreases args.len() - i,
                {
                    if self.is_arg_tainted(&args[i]) {
                        let v = self.finding_at(*offset, true);
                        let ghost before = self.findings@;
                        self.findings.push(v);
                        assert(findings_view(self.findings@) =~= findings_view(before).push(v.view()));
                        assert(expr_tainted(args@[i as int], self.names@, self.tainted@));
                        assert(sql_finding_of(*e, self.names@, self.tainted@, self.source@, self.file@)
                            == seq![v.view()]);
                        return;
                    }
                    i = i + 1;
                }
            }
        }
        assert(sql_finding_of(*e, self.names@, self.tainted@, self.source@, self.file@) =~= Seq::empty());
        assert(self.state().2 =~= self.state().2 + Seq::<VulnerabilityView>::empty());
    }

    /// Reports `e` when it calls software cryptography.
    fn check_crypto(&mut self, e: &PyExpr)
        requires
            old(self).wf(),
        ensures
            final(self).wf(),
            final(self).source == old(self).source,
            final(self).file == old(self).file,
            final(self).state() == (
                old(self).state().0,
                old(self).state().1,
                old(self).state().2 + crypto_finding_of(*e, old(self).source@, old(self).file@),
            ),
    {
        if let PyExpr::Call { func, offset, .. } = e {
            let crypto = match &**func {
                PyExpr::Attribute { attr, .. } => crypto_name(attr),
                PyExpr::Name { id } => crypto_name(id),
                _ => false,
            };
            if crypto {
                let v = self.finding_at(*offset, false);
                let ghost before = self.findings@;
                self.findings.push(v);
                assert(findings_view(self.findings@) =~= findings_view(before).push(v.view()));
                assert(crypto_finding_of(*e, self.source@, self.file@) == seq![v.view()]);
                return;
            }
        }
        assert(crypto_finding_of(*e, self.source@, self.file@) =~= Seq::empty());
        assert(self.state().2 =~= self.state().2 + Seq::<VulnerabilityView>::empty());
    }

    /// Reports `e` itself: a sink call with a tainted argument, then a call of
    /// software cryptography.
    fn check_call(&mut self, e: &PyExpr)
        requires
            old(self).wf(),
        ensures
            final(self).wf(),
            final(self).source == old(self).source,
            final(self).file == old(self).file,
            final(self).state() == (
                old(self).state().0,
                old(self).state().1,
                old(self).state().2 + call_finding(
                    *e,
                    old(self).names@,
                    old(self).tainted@,
                    old(self).source@,
                    old(self).file@,
                ),
            ),
    {
        self.check_sql(e);
        self.check_crypto(e);
    }

    /// Reports the sink calls in `e` and its sub-expressions.
    #[verifier::loop_isolation(false)]
    pub fn visit_expr(&mut self, e: &PyExpr)
        requires
            old(self).wf(),
        ensures
            final(self).wf(),
            final(self).source == old(self).source,
            final(self).file == old(self).file,
            final(self).state() == (
                old(self).state().0,
                old(self).state().1,
                old(self).state().2 + expr_findings(
                    *e,
                    old(self).names@,
                    old(self).tainted@,
                    old(self).source@,
                    old(self).file@,
                ),
            ),
        decreases e, 1int,
    {
        let ghost names = self.names@;
        let ghost tainted = self.tainted@;
        let ghost src = self.source@;
        let ghost file = self.file@;
        let ghost f0 = self.state().2;
        self.check_call(e);
        let ghost f1 = self.state().2;
        match e {
            PyExpr::Name { .. } => {
                assert(f1 =~= f1 + Seq::<VulnerabilityView>::empty());
            },
            PyExpr::BinOp { left, right, .. } => {
                self.visit_expr(left);
                self.visit_expr(right);
            },
            PyExpr::FString { parts } => {
                let mut i: usize = 0;
                while i < parts.len()
                    invariant
                        0 <= i <= parts.len(),
                        self.wf(),
                        self.source == old(self).source,
                        self.file == old(self).file,
                        self.names@ == names,
                        self.tainted@ == tainted,
                        self.state().2 == f1 + parts_findings(
                            parts@.subrange(0, i as int),
                            names,
                            tainted,
                            src,
                            file,
                        ),
                    decreases parts.len() - i,
                {
                    let ghost pre = parts@.subrange(0, i as int);
                    let ghost post = parts@.subrange(0, i + 1);
                    assert(post.subrange(0, post.len() - 1) =~= pre);
                    match &parts[i] {
                        FStringPart::Value { expression } | FStringPart::FormatSpec { expression } => {
                            assert(decreases_to!(*e => parts@[i as int]));
                            self.visit_expr(expression);
                        },
                        FStringPart::Literal => {},
                    }
                    i = i + 1;
                }
                assert(parts@.subrange(0, parts.len() as int) =~= parts@);
            },
            PyExpr::Call { func, args, keywords, .. } => {
                self.visit_expr(func);
                self.visit_children(e, args);
                self.visit_children(e, keywords);
            },
            PyExpr::Attribute { value, .. } => {
                self.visit_expr(value);
            },
            PyExpr::Await { value } => {
                if let PyExpr::Call { func, args, keywords, .. } = &**value {
                    // an awaited call is no database sink
                    self.check_crypto(value);
                    self.visit_expr(func);
                    assert(forall|i: int| 0 <= i < args.len() ==> decreases_to!(*e => #[trigger] args@[i]));
                    self.visit_children(e, args);
                    assert(forall|i: int|
                        0 <= i < keywords.len() ==> decreases_to!(*e => #[trigger] keywords@[i]));
                    self.visit_children(e, keywords);
                } else {
                    self.visit_expr(value);
                }
            },
            PyExpr::Other { children } => {
                self.visit_children(e, children);
            },
        }
    }

    /// Visits the sub-expressions `children` of `parent`, in order.
    pub fn visit_children(&mut self, parent: &PyExpr, children: &Vec<PyExpr>)
        requires
            old(self).wf(),
            forall|i: int| 0 <= i < children.len() ==> decreases_to!(*parent => #[trigger] children@[i]),
        ensures
            final(self).wf(),
            final(self).source == old(self).source,
            final(self).file == old(self).file,
            final(self).state() == (
                old(self).state().0,
                old(self).state().1,
                old(self).state().2 + exprs_findings(
                    children@,
                    old(self).names@,
                    old(self).tainted@,
                    old(self).source@,
                    old(self).file@,
                ),
            ),
        decreases parent, 0int,
    {
        let ghost names = self.names@;
        let ghost tainted = self.tainted@;
        let ghost f0 = self.state().2;
        let mut i: usize = 0;
        while i < children.len()
            invariant
                0 <= i <= children.len(),
                self.wf(),
                self.source == old(self).source,
                self.file == old(self).file,
                self.names@ == names,
                self.tainted@ == tainted,
                names == old(self).names@,
                tainted == old(self).tainted@,
                f0 == old(self).state().2,
                forall|j: int| 0 <= j < children.len() ==> decreases_to!(*parent => #[trigger] children@[j]),
                self.state().2 == f0 + exprs_findings(
                    children@.subrange(0, i as int),
                    names,
                    tainted,
                    self.source@,
                    self.file@,
                ),
            decreases children.len() - i,
        {
            let ghost post = children@.subrange(0, i + 1);
            assert(post.subrange(0, post.len() - 1) =~= children@.subrange(0, i as int));
            self.visit_expr(&children[i]);
            i = i + 1;
        }
        assert(children@.subrange(0, children.len() as int) =~= children@);
    }

    /// Visits each expression of a list in order.
    pub fn visit_exprs(&mut self, exprs: &Vec<PyExpr>)
        requires
            old(self).wf(),
        ensures
            final(self).wf(),
            final(self).source == old(self).source,
            final(self).file == old(self).file,
            final(self).state() == (
                old(self).state().0,
                old(self).state().1,
                old(self).state().2 + exprs_findings(
                    exprs@,
                    old(self).names@,
                    old(self).tainted@,
                    old(self).source@,
                    old(self).file@,
                ),
            ),
    {
        let ghost names = self.names@;
        let ghost tainted = self.tainted@;
        let ghost f0 = self.state().2;
        let mut i: usize = 0;
        while i < exprs.len()
            invariant
                0 <= i <= exprs.len(),
                self.wf(),
                self.source == old(self).source,
                self.file == old(self).file,
                self.names@ == names,
                self.tainted@ == tainted,
                names == old(self).names@,
                tainted == old(self).tainted@,
                f0 == old(self).state().2,
                self.state().2 == f0 + exprs_findings(
                    exprs@.subrange(0, i as int),
                    names,
                    tainted,
                    self.source@,
                    self.file@,
                ),
            decreases exprs.len() - i,
        {
            let ghost post = exprs@.subrange(0, i + 1);
            assert(post.subrange(0, post.len() - 1) =~= exprs@.subrange(0, i as int));
            self.visit_expr(&exprs[i]);
            i = i + 1;
        }
        assert(exprs@.subrange(0, exprs.len() as int) =~= exprs@);
    }

    /// Marks the names bound by `targets` as tainted.
    fn bind_targets(&mut self, targets: &Vec<PyExpr>)
        requires
            old(self).wf(),
        ensures
            final(self).wf(),
            final(self).source == old(self).source,
            final(self).file == old(self).file,
            final(self).findings == old(self).findings,
            (final(self).names@, final(self).tainted@) == bind_all_tainted(
                old(self).names@,
                old(self).tainted@,
                targets@,
            ),
    {
        let mut i: usize = 0;
        while i < targets.len()
            invariant
                0 <= i <= targets.len(),
                self.wf(),
                self.source == old(self).source,
                self.file == old(self).file,
                self.findings == old(self).findings,
                (self.names@, self.tainted@) == bind_all_tainted(
                    old(self).names@,
                    old(self).tainted@,
                    targets@.subrange(0, i as int),
                ),
            decreases targets.len() - i,
        {
            let ghost post = targets@.subrange(0, i + 1);
            assert(post.drop_last() =~= targets@.subrange(0, i as int));
            if let PyExpr::Name { id } = &targets[i] {
                match find_position(&self.names, id) {
                    Some(k) => {
                        self.tainted.set(k, true);
                    },
                    None => {
                        self.names.push(id.clone());
                        self.tainted.push(true);
                    },
                }
            }
            i = i + 1;
        }
        assert(targets@.subrange(0, targets.len() as int) =~= targets@);
    }

    /// Visits a statement and everything nested in it, in source order.
    #[verifier::loop_isolation(false)]
    pub fn visit_stmt(&mut self, stmt: &PyStmt)
        requires
            old(self).wf(),
        ensures
            final(self).wf(),
            final(self).source == old(self).source,
            final(self).file == old(self).file,
            final(self).state() == stmt_scan(old(self).state(), *stmt, old(self).source@, old(self).file@),
        decreases stmt,
    {
        let ghost st0 = self.state();
        match stmt {
            PyStmt::FunctionDef { def } => {
                self.visit_exprs(&def.decorators);
                self.visit_exprs(&def.header);
                let ghost st1 = self.state();
                assert(st1.2 == st0.2 + exprs_findings(def.decorators@, st0.0, st0.1, self.source@, self.file@)
                    + exprs_findings(def.header@, st0.0, st0.1, self.source@, self.file@));
                let mut i: usize = 0;
                while i < def.body.len()
                    invariant
                        0 <= i <= def.body.len(),
                        self.wf(),
                        self.source == old(self).source,
                        self.file == old(self).file,
                        self.state() == stmts_scan(st1, def.body@.subrange(0, i as int), self.source@, self.file@),
                    decreases def.body.len() - i,
                {
                    let ghost post = def.body@.subrange(0, i + 1);
                    assert(post.subrange(0, post.len() - 1) =~= def.body@.subrange(0, i as int));
                    assert(decreases_to!(*stmt => def.body@[i as int]));
                    self.visit_stmt(&def.body[i]);
                    i = i + 1;
                }
                assert(def.body@.subrange(0, def.body.len() as int) =~= def.body@);
            },
            PyStmt::Expr { value } => {
                self.visit_expr(value);
            },
            PyStmt::Assign { targets, value } => {
                let value_tainted = self.is_arg_tainted(value);
                self.visit_expr(value);
                self.visit_exprs(targets);
                if value_tainted {
                    self.bind_targets(targets);
                }
            },
            PyStmt::Return { returned } => {
                if let Some(value) = returned {
                    self.visit_expr(value);
                }
            },
            PyStmt::Other { nodes, .. } => {
                let mut i: usize = 0;
                while i < nodes.len()
                    invariant
                        0 <= i <= nodes.len(),
                        self.wf(),
                        self.source == old(self).source,
                        self.file == old(self).file,
                        self.state() == nodes_scan(st0, nodes@.subrange(0, i as int), self.source@, self.file@),
                    decreases nodes.len() - i,
                {
                    let ghost post = nodes@.subrange(0, i + 1);
                    assert(post.subrange(0, post.len() - 1) =~= nodes@.subrange(0, i as int));
                    match &nodes[i] {
                        PyNode::Expr { expr } => {
                            self.visit_expr(expr);
                        },
                        PyNode::Stmt { stmt: inner } => {
                            assert(decreases_to!(*stmt => nodes@[i as int]));
                            self.visit_stmt(inner);
                        },
                    }
                    i = i + 1;
                }
                assert(nodes@.subrange(0, nodes.len() as int) =~= nodes@);
            },
        }
    }
}

/// Reports, for every function of the project in map order, the database
/// sink calls that receive tainted data. The parameters of a function
/// decorated as a web route are tainted; taint flows through `+`, `%`,
/// f-strings, calls other than sanitizers, and assignments.
pub fn find_vulnerabilities(engine: &TaintEngine) -> (r: Vec<Vulnerability>)
    requires
        engine.wf(),
    ensures
        findings_view(r@) == project_findings(engine.project, engine.project.function_map.len() as int),
{
    let project = &engine.project;
    let mut findings: Vec<Vulnerability> = Vec::new();
    let mut i: usize = 0;
    while i < project.function_map.len()
        invariant
            0 <= i <= project.function_map.len(),
            project.wf(),
            findings_view(findings@) == project_findings(*project, i as int),
        decreases project.function_map.len() - i,
    {
        let fid = project.function_map[i].0.duplicate();
        proof {
            let s = project.map_view();
            assert(s[i as int].0 == fid@);
            let c = choose|c: int| 0 <= c < s.len() && s[c].0 == fid@;
            assert(c == i);
        }
        let (func, source, path) = project.get_function(&fid).unwrap();
        let mut has_route_decorator = false;
        let mut d: usize = 0;
        while d < func.decorators.len()
            invariant
                0 <= d <= func.decorators.len(),
                has_route_decorator == exists|j: int|
                    0 <= j < d && is_route_decorator(#[trigger] func.decorators@[j]),
            decreases func.decorators.len() - d,
        {
            if is_web_route(&func.decorators[d]) {
                has_route_decorator = true;
            }
            d = d + 1;
        }
        let mut param_tainted: Vec<bool> = Vec::new();
        let mut k: usize = 0;
        while k < func.params.len()
            invariant
                0 <= k <= func.params.len(),
                param_tainted@ == Seq::new(k as nat, |j: int| has_route_decorator),
            decreases func.params.len() - k,
        {
            param_tainted.push(has_route_decorator);
            k = k + 1;
            assert(param_tainted@ =~= Seq::new(k as nat, |j: int| has_route_decorator));
        }
        let mut visitor = SinkVisitor {
            source,
            file: path.clone(),
            names: clone_names(&func.params),
            tainted: param_tainted,
            findings: Vec::new(),
        };
        proof {
            let (m, _) = project.map_view()[i as int].1;
            assert(source_fits(project.modules@[m as int].source@));
            assert(visitor.state() =~= initial_scan(*func));
        }
        let mut j: usize = 0;
        while j < func.body.len()
            invariant
                0 <= j <= func.body.len(),
                visitor.wf(),
                visitor.source == source,
                visitor.file@ == path@,
                visitor.state() == stmts_scan(initial_scan(*func), func.body@.subrange(0, j as int), source@, path@),
            decreases func.body.len() - j,
        {
            let ghost post = func.body@.subrange(0, j + 1);
            assert(post.subrange(0, post.len() - 1) =~= func.body@.subrange(0, j as int));
            visitor.visit_stmt(&func.body[j]);
            j = j + 1;
        }
        assert(func.body@.subrange(0, func.body.len() as int) =~= func.body@);
        let ghost before = findings@;
        let mut found = visitor.findings;
        findings.append(&mut found);
        assert(findings_view(findings@) =~= findings_view(before) + function_findings(*func, source@, path@));
        i = i + 1;
    }
    findings
}

/// No tracked name carries taint.
pub open spec fn untainted(names: Seq<String>, tainted: Seq<bool>) -> bool {
    names.len() == tainted.len() && forall|k: int| 0 <= k < tainted.len() ==> !tainted[k]
}

/// The finding is a Sentinel Guard cryptography finding in `file`.
pub open spec fn is_crypto_finding_in(v: VulnerabilityView, file: Seq<char>) -> bool {
    exists|line: int| line >= 1 && v == crypto_finding(file, line)
}

/// Every finding in the list is a cryptography finding in `file`.
pub open spec fn all_crypto(vs: Seq<VulnerabilityView>, file: Seq<char>) -> bool {
    forall|i: int| 0 <= i < vs.len() ==> is_crypto_finding_in(#[trigger] vs[i], file)
}

proof fn lemma_crypto_part(e: PyExpr, source: Seq<char>, file: Seq<char>)
    ensures
        all_crypto(crypto_finding_of(e, source, file), file),
{
    if let PyExpr::Call { offset, .. } = e {
        let c = crypto_finding_of(e, source, file);
        if c.len() > 0 {
            assert(call_line(source, offset) >= 1);
            assert(is_crypto_finding_in(c[0], file));
        }
    }
}

proof fn lemma_untainted_expr_findings(
    e: PyExpr,
    names: Seq<String>,
    tainted: Seq<bool>,
    source: Seq<char>,
    file: Seq<char>,
)
    requires
        untainted(names, tainted),
    ensures
        all_crypto(expr_findings(e, names, tainted, source, file), file),
    decreases e,
{
    if let PyExpr::Call { args, .. } = e {
        assert forall|i: int| 0 <= i < args.len() implies !expr_tainted(#[trigger] args@[i], names, tainted) by {
            crate::summary::lemma_untainted_expr(args@[i], names, tainted);
        }
    }
    assert(sql_finding_of(e, names, tainted, source, file) =~= Seq::empty());
    lemma_crypto_part(e, source, file);
    match e {
        PyExpr::Name { .. } => {},
        PyExpr::BinOp { left, right, .. } => {
            lemma_untainted_expr_findings(*left, names, tainted, source, file);
            lemma_untainted_expr_findings(*right, names, tainted, source, file);
        },
        PyExpr::FString { parts } => {
            lemma_untainted_parts_findings(parts@, names, tainted, source, file);
        },
        PyExpr::Call { func, args, keywords, .. } => {
            lemma_untainted_expr_findings(*func, names, tainted, source, file);
            lemma_untainted_exprs_findings(args@, names, tainted, source, file);
            lemma_untainted_exprs_findings(keywords@, names, tainted, source, file);
        },
        PyExpr::Attribute { value, .. } => {
            lemma_untainted_expr_findings(*value, names, tainted, source, file);
        },
        PyExpr::Await { value } => {
            match *value {
                PyExpr::Call { func, args, keywords, .. } => {
                    lemma_crypto_part(*value, source, file);
                    lemma_untainted_expr_findings(*func, names, tainted, source, file);
                    lemma_untainted_exprs_findings(args@, names, tainted, source, file);
                    lemma_untainted_exprs_findings(keywords@, names, tainted, source, file);
                },
                _ => {
                    lemma_untainted_expr_findings(*value, names, tainted, source, file);
                },
            }
        },
        PyExpr::Other { children } => {
            lemma_untainted_exprs_findings(children@, names, tainted, source, file);
        },
    }
}

proof fn lemma_untainted_exprs_findings(
    es: Seq<PyExpr>,
    names: Seq<String>,
    tainted: Seq<bool>,
    source: Seq<char>,
    file: Seq<char>,
)
    requires
        untainted(names, tainted),
    ensures
        all_crypto(exprs_findings(es, names, tainted, source, file), file),
    decreases es,
{
    if es.len() > 0 {
        lemma_untainted_exprs_findings(es.subrange(0, es.len() - 1), names, tainted, source, file);
        lemma_untainted_expr_findings(es[es.len() - 1], names, tainted, source, file);
    }
}

proof fn lemma_untainted_parts_findings(
    ps: Seq<FStringPart>,
    names: Seq<String>,
    tainted: Seq<bool>,
    source: Seq<char>,
    file: Seq<char>,
)
    requires
        untainted(names, tainted),
    ensures
        all_crypto(parts_findings(ps, names, tainted, source, file), file),
    decreases ps,
{
    if ps.len() > 0 {
        lemma_untainted_parts_findings(ps.subrange(0, ps.len() - 1), names, tainted, source, file);
        match ps[ps.len() - 1] {
            FStringPart::Value { expression } => {
                lemma_untainted_expr_findings(expression, names, tainted, source, file);
            },
            FStringPart::FormatSpec { expression } => {
                lemma_untainted_expr_findings(expression, names, tainted, source, file);
            },
            FStringPart::Literal => {},
        }
    }
}

proof fn lemma_untainted_stmt_scan(st: ScanState, s: PyStmt, source: Seq<char>, file: Seq<char>)
    requires
        untainted(st.0, st.1),
        all_crypto(st.2, file),
    ensures
        untainted(stmt_scan(st, s, source, file).0, stmt_scan(st, s, source, file).1),
        all_crypto(stmt_scan(st, s, source, file).2, file),
    decreases s,
{
    match s {
        PyStmt::FunctionDef { def } => {
            lemma_untainted_exprs_findings(def.decorators@, st.0, st.1, source, file);
            lemma_untainted_exprs_findings(def.header@, st.0, st.1, source, file);
            let st1 = (
                st.0,
                st.1,
                st.2 + exprs_findings(def.decorators@, st.0, st.1, source, file) + exprs_findings(
                    def.header@,
                    st.0,
                    st.1,
                    source,
                    file,
                ),
            );
            lemma_untainted_stmts_scan(st1, def.body@, source, file);
        },
        PyStmt::Expr { value } => {
            lemma_untainted_expr_findings(value, st.0, st.1, source, file);
        },
        PyStmt::Assign { targets, value } => {
            crate::summary::lemma_untainted_expr(value, st.0, st.1);
            lemma_untainted_expr_findings(value, st.0, st.1, source, file);
            lemma_untainted_exprs_findings(targets@, st.0, st.1, source, file);
        },
        PyStmt::Return { returned } => {
            if let Some(v) = returned {
                lemma_untainted_expr_findings(v, st.0, st.1, source, file);
            }
        },
        PyStmt::Other { nodes, .. } => {
            lemma_untainted_nodes_scan(st, nodes@, source, file);
        },
    }
}

proof fn lemma_untainted_stmts_scan(st: ScanState, ss: Seq<PyStmt>, source: Seq<char>, file: Seq<char>)
    requires
        untainted(st.0, st.1),
        all_crypto(st.2, file),
    ensures
        untainted(stmts_scan(st, ss, source, file).0, stmts_scan(st, ss, source, file).1),
        all_crypto(stmts_scan(st, ss, source, file).2, file),
    decreases ss,
{
    if ss.len() > 0 {
        lemma_untainted_stmts_scan(st, ss.subrange(0, ss.len() - 1), source, file);
        lemma_untainted_stmt_scan(
            stmts_scan(st, ss.subrange(0, ss.len() - 1), source, file),
            ss[ss.len() - 1],
            source,
            file,
        );
    }
}

proof fn lemma_untainted_nodes_scan(st: ScanState, ns: Seq<PyNode>, source: Seq<char>, file: Seq<char>)
    requires
        untainted(st.0, st.1),
        all_crypto(st.2, file),
    ensures
        untainted(nodes_scan(st, ns, source, file).0, nodes_scan(st, ns, source, file).1),
        all_crypto(nodes_scan(st, ns, source, file).2, file),
    decreases ns,
{
    if ns.len() > 0 {
        lemma_untainted_nodes_scan(st, ns.subrange(0, ns.len() - 1), source, file);
        let prev = nodes_scan(st, ns.subrange(0, ns.len() - 1), source, file);
        match ns[ns.len() - 1] {
            PyNode::Expr { expr } => {
                lemma_untainted_expr_findings(expr, prev.0, prev.1, source, file);
            },
            PyNode::Stmt { stmt } => {
                lemma_untainted_stmt_scan(prev, stmt, source, file);
            },
        }
    }
}

/// Only web routes are taint sources: a function with no route decorator
/// reports no SQL injection, whatever its body holds; all its findings are
/// Sentinel Guard cryptography findings.
pub proof fn lemma_no_route_no_sql_findings(d: PyFunctionDef, source: Seq<char>, file: Seq<char>)
    requires
        !has_route_decorator(d),
    ensures
        all_crypto(function_findings(d, source, file), file),
{
    lemma_untainted_stmts_scan(initial_scan(d), d.body@, source, file);
}

/// The finding is an SQL injection or a cryptography finding reported in
/// `file` at a one-based line.
pub open spec fn is_finding_in(v: VulnerabilityView, file: Seq<char>) -> bool {
    exists|line: int| line >= 1 && (v == sql_injection_finding(file, line) || v == crypto_finding(file, line))
}

/// Every finding in the list is reported in `file`.
pub open spec fn all_in(vs: Seq<VulnerabilityView>, file: Seq<char>) -> bool {
    forall|i: int| 0 <= i < vs.len() ==> is_finding_in(#[trigger] vs[i], file)
}

proof fn lemma_call_finding_in(
    e: PyExpr,
    names: Seq<String>,
    tainted: Seq<bool>,
    source: Seq<char>,
    file: Seq<char>,
)
    ensures
        all_in(call_finding(e, names, tainted, source, file), file),
        all_in(crypto_finding_of(e, source, file), file),
{
    if let PyExpr::Call { offset, .. } = e {
        assert(call_line(source, offset) >= 1);
        let q = sql_finding_of(e, names, tainted, source, file);
        let c = crypto_finding_of(e, source, file);
        if q.len() > 0 {
            assert(is_finding_in(q[0], file));
        }
        if c.len() > 0 {
            assert(is_finding_in(c[0], file));
        }
    }
}

proof fn lemma_expr_findings_in(
    e: PyExpr,
    names: Seq<String>,
    tainted: Seq<bool>,
    source: Seq<char>,
    file: Seq<char>,
)
    ensures
        all_in(expr_findings(e, names, tainted, source, file), file),
    decreases e,
{
    lemma_call_finding_in(e, names, tainted, source, file);
    match e {
        PyExpr::Name { .. } => {},
        PyExpr::BinOp { left, right, .. } => {
            lemma_expr_findings_in(*left, names, tainted, source, file);
            lemma_expr_findings_in(*right, names, tainted, source, file);
        },
        PyExpr::FString { parts } => {
            lemma_parts_findings_in(parts@, names, tainted, source, file);
        },
        PyExpr::Call { func, args, keywords, .. } => {
            lemma_expr_findings_in(*func, names, tainted, source, file);
            lemma_exprs_findings_in(args@, names, tainted, source, file);
            lemma_exprs_findings_in(keywords@, names, tainted, source, file);
        },
        PyExpr::Attribute { value, .. } => {
            lemma_expr_findings_in(*value, names, tainted, source, file);
        },
        PyExpr::Await { value } => {
            match *value {
                PyExpr::Call { func, args, keywords, .. } => {
                    lemma_call_finding_in(*value, names, tainted, source, file);
                    lemma_expr_findings_in(*func, names, tainted, source, file);
                    lemma_exprs_findings_in(args@, names, tainted, source, file);
                    lemma_exprs_findings_in(keywords@, names, tainted, source, file);
                },
                _ => {
                    lemma_expr_findings_in(*value, names, tainted, source, file);
                },
            }
        },
        PyExpr::Other { children } => {
            lemma_exprs_findings_in(children@, names, tainted, source, file);
        },
    }
}

proof fn lemma_exprs_findings_in(
    es: Seq<PyExpr>,
    names: Seq<String>,
    tainted: Seq<bool>,
    source: Seq<char>,
    file: Seq<char>,
)
    ensures
        all_in(exprs_findings(es, names, tainted, source, file), file),
    decreases es,
{
    if es.len() > 0 {
        lemma_exprs_findings_in(es.subrange(0, es.len() - 1), names, tainted, source, file);
        lemma_expr_findings_in(es[es.len() - 1], names, tainted, source, file);
    }
}

proof fn lemma_parts_findings_in(
    ps: Seq<FStringPart>,
    names: Seq<String>,
    tainted: Seq<bool>,
    source: Seq<char>,
    file: Seq<char>,
)
    ensures
        all_in(parts_findings(ps, names, tainted, source, file), file),
    decreases ps,
{
    if ps.len() > 0 {
        lemma_parts_findings_in(ps.subrange(0, ps.len() - 1), names, tainted, source, file);
        match ps[ps.len() - 1] {
            FStringPart::Value { expression } => {
                lemma_expr_findings_in(expression, names, tainted, source, file);
            },
            FStringPart::FormatSpec { expression } => {
                lemma_expr_findings_in(expression, names, tainted, source, file);
            },
            FStringPart::Literal => {},
        }
    }
}

proof fn lemma_stmt_scan_in(st: ScanState, s: PyStmt, source: Seq<char>, file: Seq<char>)
    requires
        all_in(st.2, file),
    ensures
        all_in(stmt_scan(st, s, source, file).2, file),
    decreases s,
{
    match s {
        PyStmt::FunctionDef { def } => {
            lemma_exprs_findings_in(def.decorators@, st.0, st.1, source, file);
            lemma_exprs_findings_in(def.header@, st.0, st.1, source, file);
            let st1 = (
                st.0,
                st.1,
                st.2 + exprs_findings(def.decorators@, st.0, st.1, source, file) + exprs_findings(
                    def.header@,
                    st.0,
                    st.1,
                    source,
                    file,
                ),
            );
            lemma_stmts_scan_in(st1, def.body@, source, file);
        },
        PyStmt::Expr { value } => {
            lemma_expr_findings_in(value, st.0, st.1, source, file);
        },
        PyStmt::Assign { targets, value } => {
            lemma_expr_findings_in(value, st.0, st.1, source, file);
            lemma_exprs_findings_in(targets@, st.0, st.1, source, file);
        },
        PyStmt::Return { returned } => {
            if let Some(v) = returned {
                lemma_expr_findings_in(v, st.0, st.1, source, file);
            }
        },
        PyStmt::Other { nodes, .. } => {
            lemma_nodes_scan_in(st, nodes@, source, file);
        },
    }
}

proof fn lemma_stmts_scan_in(st: ScanState, ss: Seq<PyStmt>, source: Seq<char>, file: Seq<char>)
    requires
        all_in(st.2, file),
    ensures
        all_in(stmts_scan(st, ss, source, file).2, file),
    decreases ss,
{
    if ss.len() > 0 {
        lemma_stmts_scan_in(st, ss.subrange(0, ss.len() - 1), source, file);
        lemma_stmt_scan_in(stmts_scan(st, ss.subrange(0, ss.len() - 1), source, file), ss[ss.len() - 1], source, file);
    }
}

proof fn lemma_nodes_scan_in(st: ScanState, ns: Seq<PyNode>, source: Seq<char>, file: Seq<char>)
    requires
        all_in(st.2, file),
    ensures
        all_in(nodes_scan(st, ns, source, file).2, file),
    decreases ns,
{
    if ns.len() > 0 {
        lemma_nodes_scan_in(st, ns.subrange(0, ns.len() - 1), source, file);
        let prev = nodes_scan(st, ns.subrange(0, ns.len() - 1), source, file);
        match ns[ns.len() - 1] {
            PyNode::Expr { expr } => {
                lemma_expr_findings_in(expr, prev.0, prev.1, source, file);
            },
            PyNode::Stmt { stmt } => {
                lemma_stmt_scan_in(prev, stmt, source, file);
            },
        }
    }
}

/// Every finding of a function is an SQL injection (id `TOTAL-SQL-001`,
/// severity `CRITICAL`) or a Sentinel Guard cryptography finding (id
/// `TOTAL-CRYPTO-001`), reported in the function's file at a one-based line.
pub proof fn lemma_findings_are_reported_in_file(d: PyFunctionDef, source: Seq<char>, file: Seq<char>)
    ensures
        all_in(function_findings(d, source, file), file),
{
    lemma_stmts_scan_in(initial_scan(d), d.body@, source, file);
}

/// Assignment propagates taint: after a tainted value is bound to the name
/// `id`, that name is tainted.
pub proof fn lemma_assignment_propagates(names: Seq<String>, tainted: Seq<bool>, t: PyExpr)
    requires
        names.len() == tainted.len(),
        t is Name,
    ensures
        ({
            let b = bind_tainted(names, tainted, t);
            &&& b.0.len() == b.1.len()
            &&& crate::taint::name_tainted(b.0, b.1, t->id@)
        }),
{
    let id = t->id;
    match position_of(names, id@) {
        Some(k) => {
            assert(crate::taint::is_first_position(names, id@, k));
        },
        None => {
            crate::taint::lemma_position_none(names, id@);
            let n2 = names.push(id);
            assert(crate::taint::is_first_position(n2, id@, names.len() as int));
            let c = choose|c: int| crate::taint::is_first_position(n2, id@, c);
            crate::taint::lemma_first_position_unique(n2, id@, c, names.len() as int);
        },
    }
}

/// Tainted data reaching a database sink is reported: the findings of a
/// sink call with a tainted positional argument start with an SQL
/// injection at the call's line.
pub proof fn lemma_tainted_sink_reported(
    e: PyExpr,
    names: Seq<String>,
    tainted: Seq<bool>,
    source: Seq<char>,
    file: Seq<char>,
    i: int,
)
    requires
        e matches PyExpr::Call { func, args, .. } && is_sink_callee(*func) && 0 <= i < args.len()
            && expr_tainted(args@[i], names, tainted),
    ensures
        expr_findings(e, names, tainted, source, file).len() >= 1,
        expr_findings(e, names, tainted, source, file)[0] == sql_injection_finding(
            file,
            call_line(source, e->offset),
        ),
{
    assert(sql_finding_of(e, names, tainted, source, file) == seq![
        sql_injection_finding(file, call_line(source, e->offset)),
    ]);
}

/// Sentinel Guard: every call of `encrypt`, `sign`, `PBKDF2` or `hash`, as a
/// method or a plain function, in any function, is reported as software
/// cryptography at the call's line, with the advice to offload it to
/// hardware.
pub proof fn lemma_crypto_call_reported(
    e: PyExpr,
    names: Seq<String>,
    tainted: Seq<bool>,
    source: Seq<char>,
    file: Seq<char>,
)
    requires
        e matches PyExpr::Call { func, .. } && is_crypto_callee(*func),
    ensures
        expr_findings(e, names, tainted, source, file).contains(
            crypto_finding(file, call_line(source, e->offset)),
        ),
{
    let q = sql_finding_of(e, names, tainted, source, file);
    let f = expr_findings(e, names, tainted, source, file);
    assert(f[q.len() as int] == crypto_finding(file, call_line(source, e->offset)));
}

/// Awaited database calls are not recognized as sinks: an awaited call is
/// reported only as cryptography (when it is one), never as an SQL
/// injection, and the rest of its findings are those of its callee and
/// arguments.
pub proof fn lemma_awaited_call_is_no_sink(
    e: PyExpr,
    names: Seq<String>,
    tainted: Seq<bool>,
    source: Seq<char>,
    file: Seq<char>,
)
    requires
        e matches PyExpr::Await { value } && *value is Call,
    ensures
        ({
            let c = *e->Await_value;
            expr_findings(e, names, tainted, source, file) == crypto_finding_of(c, source, file)
                + expr_findings(*c->func, names, tainted, source, file) + exprs_findings(
                c->args@,
                names,
                tainted,
                source,
                file,
            ) + exprs_findings(c->keywords@, names, tainted, source, file)
        }),
{
    assert(call_finding(e, names, tainted, source, file) =~= Seq::empty());
}

/// A decorator marks a web route exactly when it is a call of a method named
/// `route`, `get`, `post`, `put` or `delete`, whatever object the method is
/// taken on (`@app.route(..)`, a blueprint's `@bp.route(..)`, a router's
/// `@router.get(..)`); a decorator that is no call never does.
pub proof fn lemma_route_decorator_any_receiver(
    value: PyExpr,
    attr: String,
    args: Vec<PyExpr>,
    keywords: Vec<PyExpr>,
    offset: u32,
    other: PyExpr,
)
    ensures
        is_route_decorator(
            PyExpr::Call {
                func: Box::new(PyExpr::Attribute { value: Box::new(value), attr }),
                args,
                keywords,
                offset,
            },
        ) <==> (attr@ == "route"@ || attr@ == "get"@ || attr@ == "post"@ || attr@ == "put"@ || attr@
            == "delete"@),
        !(other is Call) ==> !is_route_decorator(other),
{
}

/// `e` is a call of a method whose name is one of `names`, on any object.
pub open spec fn calls_method_named(e: PyExpr, names: Set<Seq<char>>) -> bool {
    match e {
        PyExpr::Call { func, .. } => match *func {
            PyExpr::Attribute { attr, .. } => names.contains(attr@),
            _ => false,
        },
        _ => false,
    }
}

proof fn lemma_stmt_scan_extends(st: ScanState, s: PyStmt, source: Seq<char>, file: Seq<char>)
    ensures
        st.2.is_prefix_of(stmt_scan(st, s, source, file).2),
    decreases s,
{
    match s {
        PyStmt::FunctionDef { def } => {
            let st1 = (
                st.0,
                st.1,
                st.2 + exprs_findings(def.decorators@, st.0, st.1, source, file) + exprs_findings(
                    def.header@,
                    st.0,
                    st.1,
                    source,
                    file,
                ),
            );
            assert(st1.2.subrange(0, st.2.len() as int) =~= st.2);
            lemma_stmts_scan_extends(st1, def.body@, source, file);
            let r = stmt_scan(st, s, source, file).2;
            assert(r.subrange(0, st.2.len() as int) =~= r.subrange(0, st1.2.len() as int).subrange(0, st.2.len() as int));
        },
        PyStmt::Expr { value } => {
            let r = stmt_scan(st, s, source, file).2;
            assert(r.subrange(0, st.2.len() as int) =~= st.2);
        },
        PyStmt::Assign { targets, value } => {
            let r = stmt_scan(st, s, source, file).2;
            assert(r.subrange(0, st.2.len() as int) =~= st.2);
        },
        PyStmt::Return { returned } => {
            let r = stmt_scan(st, s, source, file).2;
            assert(r.subrange(0, st.2.len() as int) =~= st.2);
        },
        PyStmt::Other { nodes, .. } => {
            lemma_nodes_scan_extends(st, nodes@, source, file);
        },
    }
}

proof fn lemma_stmts_scan_extends(st: ScanState, ss: Seq<PyStmt>, source: Seq<char>, file: Seq<char>)
    ensures
        st.2.is_prefix_of(stmts_scan(st, ss, source, file).2),
    decreases ss,
{
    if ss.len() > 0 {
        let init = ss.subrange(0, ss.len() - 1);
        lemma_stmts_scan_extends(st, init, source, file);
        let mid = stmts_scan(st, init, source, file);
        lemma_stmt_scan_extends(mid, ss[ss.len() - 1], source, file);
        let r = stmts_scan(st, ss, source, file).2;
        assert(r.subrange(0, st.2.len() as int) =~= r.subrange(0, mid.2.len() as int).subrange(0, st.2.len() as int));
    }
}

proof fn lemma_nodes_scan_extends(st: ScanState, ns: Seq<PyNode>, source: Seq<char>, file: Seq<char>)
    ensures
        st.2.is_prefix_of(nodes_scan(st, ns, source, file).2),
    decreases ns,
{
    if ns.len() > 0 {
        lemma_nodes_scan_extends(st, ns.subrange(0, ns.len() - 1), source, file);
        let prev = nodes_scan(st, ns.subrange(0, ns.len() - 1), source, file);
        let r = nodes_scan(st, ns, source, file).2;
        match ns[ns.len() - 1] {
            PyNode::Expr { expr } => {
                assert(r.subrange(0, prev.2.len() as int) =~= prev.2);
            },
            PyNode::Stmt { stmt } => {
                lemma_stmt_scan_extends(prev, stmt, source, file);
            },
        }
        assert(r.subrange(0, st.2.len() as int) =~= r.subrange(0, prev.2.len() as int).subrange(0, st.2.len() as int));
    }
}

/// The findings of the first statement of a list come first among the
/// findings of the whole list.
proof fn lemma_first_stmt_findings_first(st: ScanState, ss: Seq<PyStmt>, source: Seq<char>, file: Seq<char>)
    requires
        ss.len() >= 1,
    ensures
        stmt_scan(st, ss[0], source, file).2.is_prefix_of(stmts_scan(st, ss, source, file).2),
    decreases ss.len(),
{
    let init = ss.subrange(0, ss.len() - 1);
    if ss.len() == 1 {
        assert(init =~= Seq::<PyStmt>::empty());
        assert(stmts_scan(st, init, source, file) == st);
        let r = stmts_scan(st, ss, source, file).2;
        assert(r.subrange(0, r.len() as int) =~= r);
    } else {
        assert(init[0] == ss[0]);
        lemma_first_stmt_findings_first(st, init, source, file);
        let mid = stmts_scan(st, init, source, file);
        lemma_stmt_scan_extends(mid, ss[ss.len() - 1], source, file);
        let a = stmt_scan(st, ss[0], source, file).2;
        let r = stmts_scan(st, ss, source, file).2;
        assert(r.subrange(0, a.len() as int) =~= r.subrange(0, mid.2.len() as int).subrange(0, a.len() as int));
    }
}

/// The parameters of a function are taint sources as soon as one of its
/// decorators, at any position, is a call of a `route`, `get`, `post`, `put`
/// or `delete` method: the scan of its body starts with every parameter
/// tracked and tainted.
pub proof fn lemma_route_handler_params_tainted(d: PyFunctionDef, i: int, k: int)
    requires
        0 <= i < d.decorators.len(),
        calls_method_named(d.decorators@[i], set!["route"@, "get"@, "post"@, "put"@, "delete"@]),
        0 <= k < d.params.len(),
    ensures
        initial_scan(d).0 == d.params@,
        initial_scan(d).1.len() == d.params.len(),
        initial_scan(d).1[k],
        crate::taint::name_tainted(initial_scan(d).0, initial_scan(d).1, d.params@[k]@),
{
    assert(is_route_decorator(d.decorators@[i]));
    assert(has_route_decorator(d));
    let names = d.params@;
    crate::taint::lemma_position_none(names, names[k]@);
    let p = crate::taint::position_of(names, names[k]@);
    assert(p is Some);
}

/// A route handler that opens with `x.execute(p, ..)` on one of its
/// parameters `p` reports an SQL injection at that call's line first, at
/// whichever position the route decorator stands among the decorators.
pub proof fn lemma_route_handler_sink_reported(d: PyFunctionDef, i: int, k: int, source: Seq<char>, file: Seq<char>)
    requires
        0 <= i < d.decorators.len(),
        calls_method_named(d.decorators@[i], set!["route"@, "get"@, "post"@, "put"@, "delete"@]),
        0 <= k < d.params.len(),
        d.body.len() >= 1,
        d.body@[0] is Expr,
        calls_method_named(d.body@[0]->Expr_value, set!["execute"@]),
        d.body@[0]->Expr_value->Call_args.len() >= 1,
        d.body@[0]->Expr_value->Call_args@[0] == (PyExpr::Name { id: d.params@[k] }),
    ensures
        function_findings(d, source, file).len() >= 1,
        function_findings(d, source, file)[0] == sql_injection_finding(
            file,
            call_line(source, d.body@[0]->Expr_value->offset),
        ),
{
    lemma_route_handler_params_tainted(d, i, k);
    let st = initial_scan(d);
    let value = d.body@[0]->Expr_value;
    let arg = value->args@[0];
    assert(expr_tainted(arg, st.0, st.1));
    assert(is_sink_callee(*value->Call_func));
    lemma_tainted_sink_reported(value, st.0, st.1, source, file, 0);
    lemma_first_stmt_findings_first(st, d.body@, source, file);
    let first = stmt_scan(st, d.body@[0], source, file).2;
    assert(st.2 == Seq::<VulnerabilityView>::empty());
    assert(first =~= expr_findings(value, st.0, st.1, source, file));
}

} // verus!
