use vstd::prelude::*;

verus! {

/// The binary operators that the analysis tells apart.
pub enum BinOperator {
    Add,
    Mod,
    Other,
}

/// One piece of an f-string, in source order.
pub enum FStringPart {
    /// Literal text.
    Literal,
    /// A replacement field `{expression}`.
    Value { expression: PyExpr },
    /// An expression nested in the format spec of the preceding replacement
    /// field (`{x:{width}}`); it is walked but never interpolated itself.
    FormatSpec { expression: PyExpr },
}

/// A Python expression, reduced to what the analysis reads.
///
/// `Other` stands for every other kind of expression; `children` holds its
/// sub-expressions in the order a source-order walk visits them.
pub enum PyExpr {
    Name { id: String },
    BinOp { op: BinOperator, left: Box<PyExpr>, right: Box<PyExpr> },
    FString { parts: Vec<FStringPart> },
    /// A call: positional `args`, keyword argument values `keywords`, and the
    /// byte offset of the call's first character in the module source.
    Call { func: Box<PyExpr>, args: Vec<PyExpr>, keywords: Vec<PyExpr>, offset: u32 },
    Attribute { value: Box<PyExpr>, attr: String },
    /// `await value`.
    Await { value: Box<PyExpr> },
    Other { children: Vec<PyExpr> },
}

/// A `def` statement.
///
/// `params` are the names of the positional-or-keyword parameters;
/// `header` holds the expressions a source-order walk visits between the
/// decorators and the body (parameter defaults and annotations, the return
/// annotation, type parameters).
pub struct PyFunctionDef {
    pub name: String,
    pub params: Vec<String>,
    pub decorators: Vec<PyExpr>,
    pub header: Vec<PyExpr>,
    pub body: Vec<PyStmt>,
}

/// What kind of compound statement an `Other` statement is, as far as the
/// analysis tells them apart.
pub enum StmtKind {
    ClassDef,
    For,
    While,
    If,
    With,
    Try,
    /// Any other statement, simple or compound.
    Other,
}

/// The kinds of statement whose first suite the analysis enters: `class`,
/// `for`, `while`, `if`, `with` and `try`.
pub open spec fn opens_block(kind: StmtKind) -> bool {
    !(kind is Other)
}

/// A Python statement, reduced to what the analysis reads.
pub enum PyStmt {
    FunctionDef { def: PyFunctionDef },
    Expr { value: PyExpr },
    Assign { targets: Vec<PyExpr>, value: PyExpr },
    Return { returned: Option<PyExpr> },
    /// Any other statement: `nodes` holds what a source-order walk visits,
    /// `suites` the statement's suites in source order (for an `if`: its
    /// body, then the body of each `elif` and `else` clause; for a `try`:
    /// its body, each handler's body, the `else` and `finally` suites).
    Other { kind: StmtKind, nodes: Vec<PyNode>, suites: Vec<Vec<PyStmt>> },
}

/// An expression or a statement nested in another statement.
pub enum PyNode {
    Expr { expr: PyExpr },
    Stmt { stmt: PyStmt },
}

/// A parsed Python module.
pub struct PyModule {
    pub path: String,
    pub source: String,
    pub body: Vec<PyStmt>,
}

/// The statements nested directly under `s`'s header: a function's body,
/// the first suite of a statement whose kind opens a block, and nothing
/// otherwise.
pub open spec fn block_of(s: PyStmt) -> Seq<PyStmt> {
    match s {
        PyStmt::FunctionDef { def } => def.body@,
        PyStmt::Other { kind, suites, .. } => if opens_block(kind) && suites.len() > 0 {
            suites@[0]@
        } else {
            Seq::empty()
        },
        _ => Seq::empty(),
    }
}

/// Executable counterpart of `block_of`.
pub fn block(s: &PyStmt) -> (r: &[PyStmt])
    ensures
        r@ == block_of(*s),
{
    match s {
        PyStmt::FunctionDef { def } => def.body.as_slice(),
        PyStmt::Other { kind, suites, .. } => match kind {
            StmtKind::Other => &[],
            _ => if suites.len() > 0 {
                suites[0].as_slice()
            } else {
                &[]
            },
        },
        _ => &[],
    }
}

} // verus!
