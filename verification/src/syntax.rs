use vstd::prelude::*;

use crate::pyast::{BinOperator, FStringPart, PyExpr, PyFunctionDef, PyModule, PyNode, PyStmt, StmtKind};

verus! {

/// A binary operator, as the parser distinguishes them.
pub enum SynOperator {
    Add,
    Sub,
    Mult,
    MatMult,
    Div,
    Mod,
    Pow,
    LShift,
    RShift,
    BitOr,
    BitXor,
    BitAnd,
    FloorDiv,
}

/// One element of an f-string: literal text, or a replacement field with
/// its expression and, where there is one, the elements of its format spec.
pub enum SynElement {
    Literal,
    Interpolation { expression: SynExpr, format_spec: Option<Vec<SynElement>> },
}

/// One part of an implicitly concatenated f-string expression.
pub enum SynFStringPart {
    /// A plain string literal.
    Literal,
    /// An f-string and its elements.
    FString { elements: Vec<SynElement> },
}

/// A Python expression as the parser gives it, before the analysis reduces
/// it. `Other` holds the sub-expressions of any other kind of expression in
/// source-walk order.
pub enum SynExpr {
    Name { id: String },
    BinOp { op: SynOperator, left: Box<SynExpr>, right: Box<SynExpr> },
    FString { parts: Vec<SynFStringPart> },
    Call { func: Box<SynExpr>, args: Vec<SynExpr>, keywords: Vec<SynExpr>, offset: u32 },
    Attribute { value: Box<SynExpr>, attr: String },
    Await { value: Box<SynExpr> },
    Other { children: Vec<SynExpr> },
}

/// A `def` statement as the parser gives it: its decorators, the
/// expressions of its type parameters and of its parameters (defaults, then
/// annotations) in source-walk order, its return annotation and its body.
pub struct SynFunctionDef {
    pub name: String,
    pub params: Vec<String>,
    pub decorators: Vec<SynExpr>,
    pub type_params: Vec<SynExpr>,
    pub parameters: Vec<SynExpr>,
    pub returns: Option<SynExpr>,
    pub body: Vec<SynStmt>,
}

/// A Python statement as the parser gives it; `Other` holds what a
/// source-order walk visits and the statement's suites in source order.
pub enum SynStmt {
    FunctionDef { def: SynFunctionDef },
    Expr { value: SynExpr },
    Assign { targets: Vec<SynExpr>, value: SynExpr },
    Return { returned: Option<SynExpr> },
    Other { kind: StmtKind, nodes: Vec<SynNode>, suites: Vec<Vec<SynStmt>> },
}

/// An expression or a statement nested in another statement.
pub enum SynNode {
    Expr { expr: SynExpr },
    Stmt { stmt: SynStmt },
}

/// A parsed module.
pub struct SynModule {
    pub path: String,
    pub source: String,
    pub body: Vec<SynStmt>,
}

/// The analysis tells apart `+` and `%`; every other operator is `Other`.
pub open spec fn lowered_op(op: SynOperator) -> BinOperator {
    match op {
        SynOperator::Add => BinOperator::Add,
        SynOperator::Mod => BinOperator::Mod,
        _ => BinOperator::Other,
    }
}

/// How many reduced f-string parts a list of elements gives: one per
/// element, plus those of its format spec.
pub open spec fn elements_len(els: Seq<SynElement>) -> nat
    decreases els,
{
    if els.len() == 0 {
        0
    } else {
        elements_len(els.subrange(0, els.len() - 1)) + element_len(els[els.len() - 1])
    }
}

/// How many reduced f-string parts one element gives.
pub open spec fn element_len(el: SynElement) -> nat
    decreases el,
{
    match el {
        SynElement::Literal => 1,
        SynElement::Interpolation { format_spec, .. } => match format_spec {
            Some(spec) => 1 + elements_len(spec@),
            None => 1,
        },
    }
}

/// How many reduced f-string parts one f-string part gives.
pub open spec fn fpart_len(part: SynFStringPart) -> nat {
    match part {
        SynFStringPart::Literal => 1,
        SynFStringPart::FString { elements } => elements_len(elements@),
    }
}

/// How many reduced f-string parts a list of f-string parts gives.
pub open spec fn fparts_len(parts: Seq<SynFStringPart>) -> nat
    decreases parts,
{
    if parts.len() == 0 {
        0
    } else {
        fparts_len(parts.subrange(0, parts.len() - 1)) + fpart_len(parts[parts.len() - 1])
    }
}

/// `p` is the reduction of `e`: operators other than `+` and `%` become
/// `Other`, f-strings become the flat list of their parts, and everything
/// else is kept as it is.
pub open spec fn lowers_expr(e: SynExpr, p: PyExpr) -> bool
    decreases e,
{
    match e {
        SynExpr::Name { id } => p matches PyExpr::Name { id: id2 } && id2 == id,
        SynExpr::BinOp { op, left, right } => p matches PyExpr::BinOp { op: op2, left: l2, right: r2 }
            && op2 == lowered_op(op) && lowers_expr(*left, *l2) && lowers_expr(*right, *r2),
        SynExpr::FString { parts } => p matches PyExpr::FString { parts: p2 } && lowers_fparts(
            parts@,
            p2@,
        ),
        SynExpr::Call { func, args, keywords, offset } => p matches PyExpr::Call {
            func: f2,
            args: a2,
            keywords: k2,
            offset: o2,
        } && o2 == offset && lowers_expr(*func, *f2) && lowers_exprs(args@, a2@) && lowers_exprs(
            keywords@,
            k2@,
        ),
        SynExpr::Attribute { value, attr } => p matches PyExpr::Attribute { value: v2, attr: a2 }
            && a2 == attr && lowers_expr(*value, *v2),
        SynExpr::Await { value } => p matches PyExpr::Await { value: v2 } && lowers_expr(*value, *v2),
        SynExpr::Other { children } => p matches PyExpr::Other { children: c2 } && lowers_exprs(
            children@,
            c2@,
        ),
    }
}

/// `p` reduces `es`, element by element.
pub open spec fn lowers_exprs(es: Seq<SynExpr>, p: Seq<PyExpr>) -> bool
    decreases es,
{
    &&& es.len() == p.len()
    &&& forall|i: int| 0 <= i < es.len() ==> lowers_expr(#[trigger] es[i], p[i])
}

/// `out` is the flat list of parts of `parts`: a string literal gives one
/// `Literal`, an f-string the parts of its elements.
pub open spec fn lowers_fparts(parts: Seq<SynFStringPart>, out: Seq<FStringPart>) -> bool
    decreases parts,
{
    if parts.len() == 0 {
        out.len() == 0
    } else {
        let init = parts.subrange(0, parts.len() - 1);
        let n = fparts_len(init);
        &&& n <= out.len()
        &&& lowers_fparts(init, out.subrange(0, n as int))
        &&& match parts[parts.len() - 1] {
            SynFStringPart::Literal => out.len() == n + 1 && out[n as int] is Literal,
            SynFStringPart::FString { elements } => lowers_elements(
                elements@,
                false,
                out.subrange(n as int, out.len() as int),
            ),
        }
    }
}

/// `out` is the flat list of parts of the elements `els`; `in_spec` tells
/// whether they stand in a format spec.
pub open spec fn lowers_elements(els: Seq<SynElement>, in_spec: bool, out: Seq<FStringPart>) -> bool
    decreases els,
{
    if els.len() == 0 {
        out.len() == 0
    } else {
        let init = els.subrange(0, els.len() - 1);
        let n = elements_len(init);
        &&& n <= out.len()
        &&& lowers_elements(init, in_spec, out.subrange(0, n as int))
        &&& lowers_element(els[els.len() - 1], in_spec, out.subrange(n as int, out.len() as int))
    }
}

/// `out` is the flat list of parts of one element: literal text gives
/// `Literal`; a replacement field gives `Value` (or, inside a format spec,
/// `FormatSpec`) with its reduced expression, followed by the parts of its
/// own format spec.
pub open spec fn lowers_element(el: SynElement, in_spec: bool, out: Seq<FStringPart>) -> bool
    decreases el,
{
    match el {
        SynElement::Literal => out.len() == 1 && out[0] is Literal,
        SynElement::Interpolation { expression, format_spec } => {
            &&& out.len() >= 1
            &&& if in_spec {
                out[0] matches FStringPart::FormatSpec { expression: e2 } && lowers_expr(expression, e2)
            } else {
                out[0] matches FStringPart::Value { expression: e2 } && lowers_expr(expression, e2)
            }
            &&& match format_spec {
                Some(spec) => lowers_elements(spec@, true, out.subrange(1, out.len() as int)),
                None => out.len() == 1,
            }
        },
    }
}

/// `h` is the header of `def`: the expressions of its type parameters, of
/// its parameters, then its return annotation, each reduced.
pub open spec fn lowers_header(def: SynFunctionDef, h: Seq<PyExpr>) -> bool {
    let a = def.type_params.len() as int;
    let b = a + def.parameters.len();
    &&& h.len() == b + if def.returns is Some { 1int } else { 0int }
    &&& lowers_exprs(def.type_params@, h.subrange(0, a))
    &&& lowers_exprs(def.parameters@, h.subrange(a, b))
    &&& def.returns matches Some(rt) ==> lowers_expr(rt, h[b])
}

/// `p` is the reduction of the statement `s`: every expression in it is
/// reduced and a function's header is gathered from its parts.
pub open spec fn lowers_stmt(s: SynStmt, p: PyStmt) -> bool
    decreases s,
{
    match s {
        SynStmt::FunctionDef { def } => p matches PyStmt::FunctionDef { def: d } && {
            &&& d.name == def.name
            &&& d.params@ == def.params@
            &&& lowers_exprs(def.decorators@, d.decorators@)
            &&& lowers_header(def, d.header@)
            &&& lowers_stmts(def.body@, d.body@)
        },
        SynStmt::Expr { value } => p matches PyStmt::Expr { value: v } && lowers_expr(value, v),
        SynStmt::Assign { targets, value } => p matches PyStmt::Assign { targets: t, value: v }
            && lowers_exprs(targets@, t@) && lowers_expr(value, v),
        SynStmt::Return { returned } => p matches PyStmt::Return { returned: r } && match returned {
            Some(a) => r matches Some(b) && lowers_expr(a, b),
            None => r is None,
        },
        SynStmt::Other { kind, nodes, suites } => p matches PyStmt::Other {
            kind: k,
            nodes: n,
            suites: ss,
        } && k == kind && lowers_nodes(nodes@, n@) && lowers_suites(suites@, ss@),
    }
}

/// `p` reduces the statements `ss`, one by one.
pub open spec fn lowers_stmts(ss: Seq<SynStmt>, p: Seq<PyStmt>) -> bool
    decreases ss,
{
    &&& ss.len() == p.len()
    &&& forall|i: int| 0 <= i < ss.len() ==> lowers_stmt(#[trigger] ss[i], p[i])
}

/// `p` reduces the nested nodes `ns`, one by one.
pub open spec fn lowers_nodes(ns: Seq<SynNode>, p: Seq<PyNode>) -> bool
    decreases ns,
{
    &&& ns.len() == p.len()
    &&& forall|i: int|
        0 <= i < ns.len() ==> match #[trigger] ns[i] {
            SynNode::Expr { expr } => p[i] matches PyNode::Expr { expr: e2 } && lowers_expr(expr, e2),
            SynNode::Stmt { stmt } => p[i] matches PyNode::Stmt { stmt: s2 } && lowers_stmt(stmt, s2),
        }
}

/// `p` reduces the suites `ss`, one by one.
pub open spec fn lowers_suites(ss: Seq<Vec<SynStmt>>, p: Seq<Vec<PyStmt>>) -> bool
    decreases ss,
{
    &&& ss.len() == p.len()
    &&& forall|i: int| 0 <= i < ss.len() ==> lowers_stmts((#[trigger] ss[i])@, p[i]@)
}

/// Reduces an expression to the analysis's model.
#[verifier::loop_isolation(false)]
pub fn lower_expr(e: &SynExpr) -> (r: PyExpr)
    ensures
        lowers_expr(*e, r),
    decreases e,
{
    match e {
        SynExpr::Name { id } => PyExpr::Name { id: id.clone() },
        SynExpr::BinOp { op, left, right } => {
            let op2 = match op {
                SynOperator::Add => BinOperator::Add,
                SynOperator::Mod => BinOperator::Mod,
                _ => BinOperator::Other,
            };
            let l = lower_expr(left);
            let r = lower_expr(right);
            PyExpr::BinOp { op: op2, left: Box::new(l), right: Box::new(r) }
        },
        SynExpr::FString { parts } => {
            let mut out: Vec<FStringPart> = Vec::new();
            let mut i: usize = 0;
            while i < parts.len()
                invariant
                    0 <= i <= parts.len(),
                    out.len() == fparts_len(parts@.subrange(0, i as int)),
                    lowers_fparts(parts@.subrange(0, i as int), out@),
                decreases parts.len() - i,
            {
                let ghost pre = out@;
                match &parts[i] {
                    SynFStringPart::Literal => {
                        out.push(FStringPart::Literal);
                    },
                    SynFStringPart::FString { elements } => {
                        assert(decreases_to!(*e => parts@[i as int]));
                        push_elements(elements, false, &mut out);
                    },
                }
                proof {
                    let s1 = parts@.subrange(0, i + 1);
                    assert(s1.subrange(0, i as int) =~= parts@.subrange(0, i as int));
                    assert(s1[i as int] == parts@[i as int]);
                    assert(out@.subrange(0, pre.len() as int) =~= pre);
                }
                i = i + 1;
            }
            assert(parts@.subrange(0, parts.len() as int) =~= parts@);
            PyExpr::FString { parts: out }
        },
        SynExpr::Call { func, args, keywords, offset } => {
            let f = lower_expr(func);
            let a = lower_list(args);
            let k = lower_list(keywords);
            PyExpr::Call { func: Box::new(f), args: a, keywords: k, offset: *offset }
        },
        SynExpr::Attribute { value, attr } => {
            let v = lower_expr(value);
            PyExpr::Attribute { value: Box::new(v), attr: attr.clone() }
        },
        SynExpr::Await { value } => {
            let v = lower_expr(value);
            PyExpr::Await { value: Box::new(v) }
        },
        SynExpr::Other { children } => PyExpr::Other { children: lower_list(children) },
    }
}

/// Reduces each expression of `es`.
pub fn lower_list(es: &Vec<SynExpr>) -> (r: Vec<PyExpr>)
    ensures
        lowers_exprs(es@, r@),
    decreases es,
{
    let mut out: Vec<PyExpr> = Vec::new();
    let mut i: usize = 0;
    while i < es.len()
        invariant
            0 <= i <= es.len(),
            out.len() == i,
            forall|j: int| 0 <= j < i ==> lowers_expr(#[trigger] es@[j], out@[j]),
        decreases es.len() - i,
    {
        assert(decreases_to!(*es => es@[i as int]));
        out.push(lower_expr(&es[i]));
        i = i + 1;
    }
    out
}

/// Appends the flat parts of the elements `els` to `out`.
fn push_elements(els: &Vec<SynElement>, in_spec: bool, out: &mut Vec<FStringPart>)
    ensures
        final(out)@.len() == old(out)@.len() + elements_len(els@),
        final(out)@.subrange(0, old(out)@.len() as int) == old(out)@,
        lowers_elements(els@, in_spec, final(out)@.subrange(old(out)@.len() as int, final(out)@.len() as int)),
    decreases els,
{
    let ghost base = out@;
    let mut i: usize = 0;
    while i < els.len()
        invariant
            0 <= i <= els.len(),
            out@.len() == base.len() + elements_len(els@.subrange(0, i as int)),
            out@.subrange(0, base.len() as int) == base,
            lowers_elements(els@.subrange(0, i as int), in_spec, out@.subrange(base.len() as int, out@.len() as int)),
        decreases els.len() - i,
    {
        let ghost pre = out@;
        assert(decreases_to!(*els => els@[i as int]));
        push_element(&els[i], in_spec, out);
        proof {
            let s1 = els@.subrange(0, i + 1);
            assert(s1.subrange(0, i as int) =~= els@.subrange(0, i as int));
            assert(s1[i as int] == els@[i as int]);
            let chunk = out@.subrange(base.len() as int, out@.len() as int);
            let n = elements_len(els@.subrange(0, i as int));
            assert(chunk.subrange(0, n as int) =~= pre.subrange(base.len() as int, pre.len() as int));
            assert(chunk.subrange(n as int, chunk.len() as int) =~= out@.subrange(pre.len() as int, out@.len() as int));
            assert(out@.subrange(0, base.len() as int) =~= pre.subrange(0, base.len() as int));
        }
        i = i + 1;
    }
    assert(els@.subrange(0, els.len() as int) =~= els@);
}

/// Appends the flat parts of one element to `out`.
fn push_element(el: &SynElement, in_spec: bool, out: &mut Vec<FStringPart>)
    ensures
        final(out)@.len() == old(out)@.len() + element_len(*el),
        final(out)@.subrange(0, old(out)@.len() as int) == old(out)@,
        lowers_element(*el, in_spec, final(out)@.subrange(old(out)@.len() as int, final(out)@.len() as int)),
    decreases el,
{
    let ghost base = out@;
    match el {
        SynElement::Literal => {
            out.push(FStringPart::Literal);
            assert(out@.subrange(0, base.len() as int) =~= base);
        },
        SynElement::Interpolation { expression, format_spec } => {
            let x = lower_expr(expression);
            if in_spec {
                out.push(FStringPart::FormatSpec { expression: x });
            } else {
                out.push(FStringPart::Value { expression: x });
            }
            let ghost mid = out@;
            assert(mid.subrange(0, base.len() as int) =~= base);
            match format_spec {
                Some(spec) => {
                    push_elements(spec, true, out);
                    proof {
                        let chunk = out@.subrange(base.len() as int, out@.len() as int);
                        assert(chunk[0] == mid[base.len() as int]);
                        assert(chunk.subrange(1, chunk.len() as int) =~= out@.subrange(mid.len() as int, out@.len() as int));
                        assert(out@.subrange(0, base.len() as int) =~= base);
                    }
                },
                None => {},
            }
        },
    }
}

/// Reduces a statement to the analysis's model.
pub fn lower_stmt(s: &SynStmt) -> (r: PyStmt)
    ensures
        lowers_stmt(*s, r),
    decreases s,
{
    match s {
        SynStmt::FunctionDef { def } => {
            let mut header = lower_list(&def.type_params);
            let ghost tp = header@;
            let mut ps = lower_list(&def.parameters);
            let ghost pp = ps@;
            header.append(&mut ps);
            let ghost hp = header@;
            match &def.returns {
                Some(rt) => {
                    header.push(lower_expr(rt));
                },
                None => {},
            }
            proof {
                let a = def.type_params.len() as int;
                let b = a + def.parameters.len();
                assert(header@.subrange(0, a) =~= tp);
                assert(header@.subrange(a, b) =~= pp);
            }
            assert(decreases_to!(*s => def.body));
            let body = lower_stmts(&def.body);
            PyStmt::FunctionDef {
                def: PyFunctionDef {
                    name: def.name.clone(),
                    params: crate::engine::clone_names(&def.params),
                    decorators: lower_list(&def.decorators),
                    header,
                    body,
                },
            }
        },
        SynStmt::Expr { value } => PyStmt::Expr { value: lower_expr(value) },
        SynStmt::Assign { targets, value } => PyStmt::Assign {
            targets: lower_list(targets),
            value: lower_expr(value),
        },
        SynStmt::Return { returned } => PyStmt::Return {
            returned: match returned {
                Some(v) => Some(lower_expr(v)),
                None => None,
            },
        },
        SynStmt::Other { kind, nodes, suites } => {
            let k = match kind {
                StmtKind::ClassDef => StmtKind::ClassDef,
                StmtKind::For => StmtKind::For,
                StmtKind::While => StmtKind::While,
                StmtKind::If => StmtKind::If,
                StmtKind::With => StmtKind::With,
                StmtKind::Try => StmtKind::Try,
                StmtKind::Other => StmtKind::Other,
            };
            let n = lower_nodes(nodes);
            let ss = lower_suites(suites);
            PyStmt::Other { kind: k, nodes: n, suites: ss }
        },
    }
}

/// Reduces each statement of `ss`.
pub fn lower_stmts(ss: &Vec<SynStmt>) -> (r: Vec<PyStmt>)
    ensures
        lowers_stmts(ss@, r@),
    decreases ss,
{
    let mut out: Vec<PyStmt> = Vec::new();
    let mut i: usize = 0;
    while i < ss.len()
        invariant
            0 <= i <= ss.len(),
            out.len() == i,
            forall|j: int| 0 <= j < i ==> lowers_stmt(#[trigger] ss@[j], out@[j]),
        decreases ss.len() - i,
    {
        assert(decreases_to!(*ss => ss@[i as int]));
        out.push(lower_stmt(&ss[i]));
        i = i + 1;
    }
    out
}

/// Reduces each nested node of `ns`.
fn lower_nodes(ns: &Vec<SynNode>) -> (r: Vec<PyNode>)
    ensures
        lowers_nodes(ns@, r@),
    decreases ns,
{
    let mut out: Vec<PyNode> = Vec::new();
    let mut i: usize = 0;
    while i < ns.len()
        invariant
            0 <= i <= ns.len(),
            out.len() == i,
            forall|j: int|
                0 <= j < i ==> match #[trigger] ns@[j] {
                    SynNode::Expr { expr } => out@[j] matches PyNode::Expr { expr: e2 } && lowers_expr(expr, e2),
                    SynNode::Stmt { stmt } => out@[j] matches PyNode::Stmt { stmt: s2 } && lowers_stmt(stmt, s2),
                },
        decreases ns.len() - i,
    {
        assert(decreases_to!(*ns => ns@[i as int]));
        let node = match &ns[i] {
            SynNode::Expr { expr } => PyNode::Expr { expr: lower_expr(expr) },
            SynNode::Stmt { stmt } => PyNode::Stmt { stmt: lower_stmt(stmt) },
        };
        out.push(node);
        i = i + 1;
    }
    out
}

/// Reduces each suite of `ss`.
fn lower_suites(ss: &Vec<Vec<SynStmt>>) -> (r: Vec<Vec<PyStmt>>)
    ensures
        lowers_suites(ss@, r@),
    decreases ss,
{
    let mut out: Vec<Vec<PyStmt>> = Vec::new();
    let mut i: usize = 0;
    while i < ss.len()
        invariant
            0 <= i <= ss.len(),
            out.len() == i,
            forall|j: int| 0 <= j < i ==> lowers_stmts((#[trigger] ss@[j])@, out@[j]@),
        decreases ss.len() - i,
    {
        assert(decreases_to!(*ss => ss@[i as int]));
        out.push(lower_stmts(&ss[i]));
        i = i + 1;
    }
    out
}

/// Reduces a parsed module to the analysis's model: same path and source,
/// each statement reduced.
pub fn lower_module(m: SynModule) -> (r: PyModule)
    ensures
        r.path == m.path,
        r.source == m.source,
        lowers_stmts(m.body@, r.body@),
{
    let body = lower_stmts(&m.body);
    PyModule { path: m.path, source: m.source, body }
}

} // verus!
