use vstd::prelude::*;

use crate::pyast::{BinOperator, FStringPart, PyExpr};
use crate::rules::{is_sanitizer, sanitizer_name};

verus! {

/// `i` is the first position of `id` in `names`.
pub open spec fn is_first_position(names: Seq<String>, id: Seq<char>, i: int) -> bool {
    &&& 0 <= i < names.len()
    &&& names[i]@ == id
    &&& forall|j: int| 0 <= j < i ==> names[j]@ != id
}

/// The first position of `id` in `names`, if it occurs there.
pub open spec fn position_of(names: Seq<String>, id: Seq<char>) -> Option<int> {
    if exists|i: int| is_first_position(names, id, i) {
        Some(choose|i: int| is_first_position(names, id, i))
    } else {
        None
    }
}

pub proof fn lemma_first_position_unique(names: Seq<String>, id: Seq<char>, i: int, j: int)
    requires
        is_first_position(names, id, i),
        is_first_position(names, id, j),
    ensures
        i == j,
{
}

/// `position_of` is `None` exactly when `id` does not occur in `names`.
pub proof fn lemma_position_none(names: Seq<String>, id: Seq<char>)
    ensures
        position_of(names, id) is None <==> forall|j: int| 0 <= j < names.len() ==> names[j]@ != id,
    decreases names.len(),
{
    if exists|j: int| 0 <= j < names.len() && names[j]@ == id {
        let j = choose|j: int| 0 <= j < names.len() && names[j]@ == id;
        lemma_first_occurrence_exists(names, id, j);
    }
}

proof fn lemma_first_occurrence_exists(names: Seq<String>, id: Seq<char>, j: int)
    requires
        0 <= j < names.len(),
        names[j]@ == id,
    ensures
        exists|i: int| is_first_position(names, id, i),
    decreases j,
{
    if forall|k: int| 0 <= k < j ==> names[k]@ != id {
        assert(is_first_position(names, id, j));
    } else {
        let k = choose|k: int| 0 <= k < j && names[k]@ == id;
        lemma_first_occurrence_exists(names, id, k);
    }
}

/// The first position of `id` in `names`.
pub fn find_position(names: &Vec<String>, id: &String) -> (r: Option<usize>)
    ensures
        match r {
            Some(i) => position_of(names@, id@) == Some(i as int),
            None => position_of(names@, id@) is None,
        },
{
    let mut i: usize = 0;
    while i < names.len()
        invariant
            0 <= i <= names.len(),
            forall|j: int| 0 <= j < i ==> names@[j]@ != id@,
        decreases names.len() - i,
    {
        if names[i] == *id {
            assert(is_first_position(names@, id@, i as int));
            proof {
                let c = choose|c: int| is_first_position(names@, id@, c);
                lemma_first_position_unique(names@, id@, c, i as int);
            }
            return Some(i);
        }
        i = i + 1;
    }
    proof {
        lemma_position_none(names@, id@);
    }
    None
}

/// Whether the variable `id` is tainted, given the tainted flag of each
/// tracked name.
pub open spec fn name_tainted(names: Seq<String>, tainted: Seq<bool>, id: Seq<char>) -> bool {
    match position_of(names, id) {
        Some(k) => tainted[k],
        None => false,
    }
}

/// Whether `func` names a sanitizer (`int`, `float`, `bindparam`).
pub open spec fn is_sanitizer_call(func: PyExpr) -> bool {
    match func {
        PyExpr::Name { id } => is_sanitizer(id@),
        _ => false,
    }
}

/// Whether an expression carries tainted data: a tainted name, a `+` or `%`
/// with a tainted operand, an f-string interpolating tainted data, or a call
/// to anything but a sanitizer with a tainted positional argument.
pub open spec fn expr_tainted(e: PyExpr, names: Seq<String>, tainted: Seq<bool>) -> bool
    decreases e,
{
    match e {
        PyExpr::Name { id } => name_tainted(names, tainted, id@),
        PyExpr::BinOp { op, left, right } => match op {
            BinOperator::Add | BinOperator::Mod => expr_tainted(*left, names, tainted)
                || expr_tainted(*right, names, tainted),
            BinOperator::Other => false,
        },
        PyExpr::FString { parts } => exists|i: int|
            0 <= i < parts.len() && match #[trigger] parts@[i] {
                FStringPart::Value { expression } => expr_tainted(expression, names, tainted),
                _ => false,
            },
        PyExpr::Call { func, args, .. } => !is_sanitizer_call(*func) && exists|i: int|
            0 <= i < args.len() && expr_tainted(#[trigger] args@[i], names, tainted),
        _ => false,
    }
}

/// Executable counterpart of `expr_tainted`.
#[verifier::loop_isolation(false)]
pub fn taint_of(e: &PyExpr, names: &Vec<String>, tainted: &Vec<bool>) -> (r: bool)
    requires
        names.len() == tainted.len(),
    ensures
        r == expr_tainted(*e, names@, tainted@),
    decreases e,
{
    match e {
        PyExpr::Name { id } => {
            match find_position(names, id) {
                Some(k) => tainted[k],
                None => false,
            }
        },
        PyExpr::BinOp { op, left, right } => {
            match op {
                BinOperator::Add | BinOperator::Mod => {
                    taint_of(left, names, tainted) || taint_of(right, names, tainted)
                },
                BinOperator::Other => false,
            }
        },
        PyExpr::FString { parts } => {
            let mut i: usize = 0;
            while i < parts.len()
                invariant
                    names.len() == tainted.len(),
                    0 <= i <= parts.len(),
                    forall|j: int|
                        0 <= j < i ==> !match #[trigger] parts@[j] {
                            FStringPart::Value { expression } => expr_tainted(
                                expression,
                                names@,
                                tainted@,
                            ),
                            _ => false,
                        },
                decreases parts.len() - i,
            {
                match &parts[i] {
                    FStringPart::Value { expression } => {
                        assert(decreases_to!(*e => parts@[i as int]));
                        if taint_of(expression, names, tainted) {
                            return true;
                        }
                    },
                    _ => {},
                }
                i = i + 1;
            }
            false
        },
        PyExpr::Call { func, args, .. } => {
            let sanitized = match &**func {
                PyExpr::Name { id } => sanitizer_name(id),
                _ => false,
            };
            if sanitized {
                return false;
            }
            let mut i: usize = 0;
            while i < args.len()
                invariant
                    names.len() == tainted.len(),
                    0 <= i <= args.len(),
                    forall|j: int| 0 <= j < i ==> !expr_tainted(#[trigger] args@[j], names@, tainted@),
                decreases args.len() - i,
            {
                assert(decreases_to!(*e => args@[i as int]));
                if taint_of(&args[i], names, tainted) {
                    return true;
                }
                i = i + 1;
            }
            false
        },
        _ => false,
    }
}

/// Sanitizers stop taint: a call of `int`, `float` or `bindparam` is
/// untainted whatever its arguments carry.
pub proof fn lemma_sanitizer_stops_taint(e: PyExpr, names: Seq<String>, tainted: Seq<bool>)
    requires
        e matches PyExpr::Call { func, .. } && is_sanitizer_call(*func),
    ensures
        !expr_tainted(e, names, tainted),
{
}

/// String concatenation (`+`) and `%`-formatting carry the taint of either
/// operand.
pub proof fn lemma_concat_propagates(e: PyExpr, names: Seq<String>, tainted: Seq<bool>)
    requires
        e matches PyExpr::BinOp { op, left, right } && (op is Add || op is Mod) && (expr_tainted(
            *left,
            names,
            tainted,
        ) || expr_tainted(*right, names, tainted)),
    ensures
        expr_tainted(e, names, tainted),
{
}

/// An f-string interpolating tainted data is tainted.
pub proof fn lemma_fstring_propagates(e: PyExpr, names: Seq<String>, tainted: Seq<bool>, i: int)
    requires
        e matches PyExpr::FString { parts } && 0 <= i < parts.len() && (parts@[i] matches FStringPart::Value {
            expression,
        } && expr_tainted(expression, names, tainted)),
    ensures
        expr_tainted(e, names, tainted),
{
}

/// Passing tainted data to any function but a sanitizer taints the result.
pub proof fn lemma_call_argument_propagates(e: PyExpr, names: Seq<String>, tainted: Seq<bool>, i: int)
    requires
        e matches PyExpr::Call { func, args, .. } && !is_sanitizer_call(*func) && 0 <= i < args.len()
            && expr_tainted(args@[i], names, tainted),
    ensures
        expr_tainted(e, names, tainted),
{
}

/// The only sanitizers are `int`, `float` and `bindparam`: a call of any
/// other callee (such as `str(x)`, or a method `q.format(x)`) with a tainted
/// positional argument is tainted.
pub proof fn lemma_only_listed_sanitizers(
    func: PyExpr,
    args: Vec<PyExpr>,
    keywords: Vec<PyExpr>,
    offset: u32,
    names: Seq<String>,
    tainted: Seq<bool>,
    i: int,
)
    requires
        !(func matches PyExpr::Name { id } && (id@ == "int"@ || id@ == "float"@ || id@ == "bindparam"@)),
        0 <= i < args.len(),
        expr_tainted(args@[i], names, tainted),
    ensures
        expr_tainted(PyExpr::Call { func: Box::new(func), args, keywords, offset }, names, tainted),
{
    assert(!is_sanitizer_call(func));
    let e = PyExpr::Call { func: Box::new(func), args, keywords, offset };
    assert(e->args@[i] == args@[i]);
    assert(expr_tainted(e->args@[i], names, tainted));
}

} // verus!
