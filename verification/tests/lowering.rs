use total_analyzer::pyast::{BinOperator, FStringPart, PyExpr, PyNode, PyStmt, StmtKind};
use total_analyzer::syntax::{
    lower_expr, lower_module, lower_stmt, SynElement, SynExpr, SynFStringPart, SynFunctionDef, SynModule, SynNode,
    SynOperator, SynStmt,
};

fn sname(id: &str) -> SynExpr {
    SynExpr::Name { id: id.to_string() }
}

fn name_of(e: &PyExpr) -> &str {
    match e {
        PyExpr::Name { id } => id,
        _ => panic!("not a name"),
    }
}

#[test]
fn lowering_gathers_the_function_header() {
    let def = SynStmt::FunctionDef {
        def: SynFunctionDef {
            name: "f".to_string(),
            params: vec!["a".to_string(), "b".to_string()],
            decorators: vec![sname("d")],
            type_params: vec![sname("t")],
            parameters: vec![sname("default_a"), sname("ann_b")],
            returns: Some(sname("ret")),
            body: vec![SynStmt::Return { returned: None }],
        },
    };
    match lower_stmt(&def) {
        PyStmt::FunctionDef { def } => {
            assert_eq!(def.name, "f");
            assert_eq!(def.params, vec!["a".to_string(), "b".to_string()]);
            assert_eq!(def.decorators.iter().map(name_of).collect::<Vec<_>>(), vec!["d"]);
            assert_eq!(def.header.iter().map(name_of).collect::<Vec<_>>(), vec!["t", "default_a", "ann_b", "ret"]);
            assert_eq!(def.body.len(), 1);
            assert!(matches!(def.body[0], PyStmt::Return { returned: None }));
        }
        _ => panic!("not a function"),
    }
}

#[test]
fn lowering_flattens_fstring_parts() {
    // "lit" f"a{x:{w}}{y}"
    let e = SynExpr::FString {
        parts: vec![
            SynFStringPart::Literal,
            SynFStringPart::FString {
                elements: vec![
                    SynElement::Literal,
                    SynElement::Interpolation {
                        expression: sname("x"),
                        format_spec: Some(vec![SynElement::Literal, SynElement::Interpolation {
                            expression: sname("w"),
                            format_spec: None,
                        }]),
                    },
                    SynElement::Interpolation { expression: sname("y"), format_spec: None },
                ],
            },
        ],
    };
    let parts = match lower_expr(&e) {
        PyExpr::FString { parts } => parts,
        _ => panic!("not an f-string"),
    };
    let shape: Vec<String> = parts
        .iter()
        .map(|p| match p {
            FStringPart::Literal => "lit".to_string(),
            FStringPart::Value { expression } => format!("value {}", name_of(expression)),
            FStringPart::FormatSpec { expression } => format!("spec {}", name_of(expression)),
        })
        .collect();
    assert_eq!(shape, vec!["lit", "lit", "value x", "lit", "spec w", "value y"]);
}

#[test]
fn lowering_keeps_only_add_and_mod_operators() {
    let op = |o: SynOperator| match lower_expr(&SynExpr::BinOp {
        op: o,
        left: Box::new(sname("a")),
        right: Box::new(sname("b")),
    }) {
        PyExpr::BinOp { op, left, right } => {
            assert_eq!(name_of(&left), "a");
            assert_eq!(name_of(&right), "b");
            op
        }
        _ => panic!("not a binary operation"),
    };
    assert!(matches!(op(SynOperator::Add), BinOperator::Add));
    assert!(matches!(op(SynOperator::Mod), BinOperator::Mod));
    assert!(matches!(op(SynOperator::Sub), BinOperator::Other));
    assert!(matches!(op(SynOperator::BitOr), BinOperator::Other));
}

#[test]
fn lowering_a_module_keeps_path_source_and_suites() {
    let m = SynModule {
        path: "m.py".to_string(),
        source: "if c:\n    g(1)\n".to_string(),
        body: vec![SynStmt::Other {
            kind: StmtKind::If,
            nodes: vec![SynNode::Expr { expr: sname("c") }],
            suites: vec![vec![SynStmt::Expr {
                value: SynExpr::Call {
                    func: Box::new(sname("g")),
                    args: vec![SynExpr::Other { children: vec![] }],
                    keywords: vec![],
                    offset: 10,
                },
            }]],
        }],
    };
    let p = lower_module(m);
    assert_eq!(p.path, "m.py");
    assert_eq!(p.source, "if c:\n    g(1)\n");
    match &p.body[0] {
        PyStmt::Other { kind, nodes, suites } => {
            assert!(matches!(kind, StmtKind::If));
            assert!(matches!(&nodes[0], PyNode::Expr { expr } if name_of(expr) == "c"));
            match &suites[0][0] {
                PyStmt::Expr { value: PyExpr::Call { func, args, offset, .. } } => {
                    assert_eq!(name_of(func), "g");
                    assert_eq!(args.len(), 1);
                    assert_eq!(*offset, 10);
                }
                _ => panic!("not a call statement"),
            }
        }
        _ => panic!("not a compound statement"),
    }
}
