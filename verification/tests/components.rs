use total_analyzer::call_graph::{CallGraph, CallGraphBuilder};
use total_analyzer::engine::TaintEngine;
use total_analyzer::function_id::FunctionId;
use total_analyzer::analysis::analyze_modules;
use total_analyzer::project::ProjectIndex;
use total_analyzer::pyast::{FStringPart, PyExpr, PyFunctionDef, PyModule, PyStmt, StmtKind};
use total_analyzer::sarif::sarif_report;
use total_analyzer::sinks::{find_vulnerabilities, is_web_route, Vulnerability};
use total_analyzer::summary::{summary_eq, FunctionSummary, SummaryAnalyzer};

fn name(id: &str) -> PyExpr {
    PyExpr::Name { id: id.to_string() }
}

fn call(func: PyExpr, args: Vec<PyExpr>) -> PyExpr {
    PyExpr::Call { func: Box::new(func), args, keywords: vec![], offset: 0 }
}

fn fdef(n: &str, params: &[&str], body: Vec<PyStmt>) -> PyStmt {
    PyStmt::FunctionDef {
        def: PyFunctionDef {
            name: n.to_string(),
            params: params.iter().map(|p| p.to_string()).collect(),
            decorators: vec![],
            header: vec![],
            body,
        },
    }
}

fn module(path: &str, body: Vec<PyStmt>) -> PyModule {
    PyModule { path: path.to_string(), source: String::new(), body }
}

fn fid(file: &str, n: &str) -> FunctionId {
    FunctionId::new(file.to_string(), n.to_string())
}

fn set_of(adj: &[(FunctionId, Vec<FunctionId>)], key: &FunctionId) -> Vec<(String, String)> {
    let mut out: Vec<(String, String)> = adj
        .iter()
        .filter(|(k, _)| k.file == key.file && k.name == key.name)
        .flat_map(|(_, v)| v.iter().map(|f| (f.file.clone(), f.name.clone())))
        .collect();
    out.sort();
    out
}

#[test]
fn function_id_new_keeps_fields() {
    let f = FunctionId::new("m.py".to_string(), "f".to_string());
    assert_eq!(f.file, "m.py");
    assert_eq!(f.name, "f");
    assert!(f.same_as(&fid("m.py", "f")));
    assert!(!f.same_as(&fid("m.py", "g")));
    assert!(!f.same_as(&fid("n.py", "f")));
}

/// The reported line of a sink call at byte `offset` of `source`.
fn reported_line(source: &str, offset: u32) -> usize {
    let route = call(PyExpr::Attribute { value: Box::new(name("app")), attr: "route".to_string() }, vec![]);
    let sink = PyExpr::Call {
        func: Box::new(name("execute")),
        args: vec![name("p")],
        keywords: vec![],
        offset,
    };
    let body = vec![PyStmt::Expr { value: sink }];
    let m = PyModule {
        path: "l.py".to_string(),
        source: source.to_string(),
        body: vec![PyStmt::FunctionDef {
            def: PyFunctionDef {
                name: "h".to_string(),
                params: vec!["p".to_string()],
                decorators: vec![route],
                header: vec![],
                body,
            },
        }],
    };
    let found = analyze_modules(vec![m]);
    assert_eq!(found.len(), 1);
    found[0].line
}

#[test]
fn reported_lines_count_all_line_endings() {
    // the report gives the one-based line of the call
    let src = "a\nb\r\nc\rd";
    assert_eq!(reported_line(src, 0), 1);
    assert_eq!(reported_line(src, 1), 1);
    assert_eq!(reported_line(src, 2), 2);
    assert_eq!(reported_line(src, 3), 2);
    assert_eq!(reported_line(src, 4), 2);
    assert_eq!(reported_line(src, 5), 3);
    assert_eq!(reported_line(src, 7), 4);
    assert_eq!(reported_line(src, 100), 4);
    assert_eq!(reported_line("", 0), 1);
    assert_eq!(reported_line("\u{e9}\n\u{e9}", 3), 2);
}

#[test]
fn call_graph_add_edge_records_both_directions() {
    let mut g = CallGraph::new();
    assert!(g.callers.is_empty() && g.callees.is_empty());
    g.add_edge(fid("a.py", "f"), fid("a.py", "g"));
    g.add_edge(fid("a.py", "f"), fid("a.py", "g"));
    g.add_edge(fid("a.py", "f"), fid("b.py", "h"));
    g.add_edge(fid("b.py", "h"), fid("a.py", "g"));
    assert_eq!(
        set_of(&g.callees, &fid("a.py", "f")),
        vec![("a.py".to_string(), "g".to_string()), ("b.py".to_string(), "h".to_string())]
    );
    assert_eq!(
        set_of(&g.callers, &fid("a.py", "g")),
        vec![("a.py".to_string(), "f".to_string()), ("b.py".to_string(), "h".to_string())]
    );
    assert_eq!(set_of(&g.callers, &fid("b.py", "h")), vec![("a.py".to_string(), "f".to_string())]);
    assert_eq!(set_of(&g.callees, &fid("a.py", "g")), vec![]);
    assert_eq!(g.callees.len(), 2);
    assert_eq!(g.callers.len(), 2);
}

#[test]
fn project_index_keeps_top_level_definitions() {
    let m0 = module(
        "a.py",
        vec![
            fdef("f", &["x"], vec![]),
            PyStmt::Expr { value: name("x") },
            fdef("g", &[], vec![]),
            fdef("f", &["y", "z"], vec![]),
        ],
    );
    let m1 = module("b.py", vec![fdef("f", &[], vec![])]);
    let p = ProjectIndex::from_modules(vec![m0, m1]);
    assert_eq!(p.modules.len(), 2);
    assert_eq!(p.modules[0].functions.len(), 3);
    assert_eq!(p.function_map.len(), 3);
    // the later `f` of a.py replaces the earlier one and keeps its place
    assert_eq!(p.function_map[0].0.name, "f");
    assert_eq!(p.function_map[0].1, (0, 2));
    assert_eq!(p.function_map[1].1, (0, 1));
    assert_eq!(p.function_map[2].0.file, "b.py");
    assert_eq!(p.function_map[2].1, (1, 0));
    let (f, _, path) = p.get_function(&fid("a.py", "f")).unwrap();
    assert_eq!(f.params, vec!["y".to_string(), "z".to_string()]);
    assert_eq!(path, "a.py");
    assert!(p.get_function(&fid("c.py", "f")).is_none());
    assert_eq!(p.find_named(&"g".to_string()), Some(1));
    assert_eq!(p.find_named(&"f".to_string()), Some(0));
    assert_eq!(p.find_named(&"h".to_string()), None);
}

#[test]
fn call_graph_builder_links_call_statements() {
    let m = module(
        "a.py",
        vec![
            fdef(
                "f",
                &[],
                vec![
                    PyStmt::Expr { value: call(name("g"), vec![]) },
                    PyStmt::Other {
                        kind: StmtKind::If,
                        nodes: vec![],
                        suites: vec![
                            vec![PyStmt::Expr { value: call(name("h"), vec![]) }],
                            // an `else` suite is not entered
                            vec![PyStmt::Expr { value: call(name("h2"), vec![]) }],
                        ],
                    },
                    // nor is a suite of a statement that opens no block
                    PyStmt::Other {
                        kind: StmtKind::Other,
                        nodes: vec![],
                        suites: vec![vec![PyStmt::Expr { value: call(name("h2"), vec![]) }]],
                    },
                    // calls outside expression statements are not edges
                    PyStmt::Assign { targets: vec![name("x")], value: call(name("h2"), vec![]) },
                    PyStmt::Expr { value: call(name("unknown"), vec![]) },
                ],
            ),
            fdef("g", &[], vec![PyStmt::Expr { value: call(name("f"), vec![]) }]),
            fdef("h", &[], vec![]),
            fdef("h2", &[], vec![]),
        ],
    );
    let p = ProjectIndex::from_modules(vec![m]);
    let g = CallGraphBuilder::build(&p);
    assert_eq!(
        set_of(&g.callees, &fid("a.py", "f")),
        vec![("a.py".to_string(), "g".to_string()), ("a.py".to_string(), "h".to_string())]
    );
    assert_eq!(set_of(&g.callees, &fid("a.py", "g")), vec![("a.py".to_string(), "f".to_string())]);
    assert_eq!(set_of(&g.callers, &fid("a.py", "h2")), vec![]);
    assert_eq!(set_of(&g.callers, &fid("a.py", "f")), vec![("a.py".to_string(), "g".to_string())]);
}

#[test]
fn resolve_call_picks_first_function_of_that_name() {
    let p = ProjectIndex::from_modules(vec![
        module("a.py", vec![fdef("f", &[], vec![])]),
        module("b.py", vec![fdef("f", &[], vec![])]),
    ]);
    let b = CallGraphBuilder { project: &p, graph: CallGraph::new(), current_func: None };
    let r = b.resolve_call(&call(name("f"), vec![])).unwrap();
    assert_eq!(r.file, "a.py");
    assert!(b.resolve_call(&call(name("g"), vec![])).is_none());
    assert!(b.resolve_call(&name("f")).is_none());
    let method = PyExpr::Attribute { value: Box::new(name("o")), attr: "f".to_string() };
    assert!(b.resolve_call(&call(method, vec![])).is_none());
}

#[test]
fn summary_analyzer_starts_and_stays_untainted() {
    let body = vec![
        PyStmt::Assign { targets: vec![name("a")], value: name("b") },
        PyStmt::Return { returned: Some(name("a")) },
    ];
    let mut an = SummaryAnalyzer::new(vec!["a".to_string(), "b".to_string()]);
    let s = an.analyze(&body);
    assert_eq!(s.param_tainted, vec![false, false]);
    assert!(!s.return_tainted);
}

#[test]
fn summary_analyzer_propagates_existing_taint() {
    let body = vec![
        PyStmt::Assign { targets: vec![name("a"), name("zz")], value: name("b") },
        PyStmt::Return {
            returned: Some(PyExpr::FString {
                parts: vec![FStringPart::Literal, FStringPart::Value { expression: name("a") }],
            }),
        },
    ];
    let mut an = SummaryAnalyzer::new(vec!["a".to_string(), "b".to_string()]);
    an.tainted_params = vec![false, true];
    assert!(an.is_expr_tainted(&name("b")));
    assert!(!an.is_expr_tainted(&call(name("int"), vec![name("b")])));
    let s = an.analyze(&body);
    assert_eq!(s.param_tainted, vec![true, true]);
    assert!(s.return_tainted);
}

#[test]
fn taint_engine_reaches_untainted_fixed_point() {
    let m = module(
        "a.py",
        vec![
            fdef("f", &["x", "y"], vec![PyStmt::Return { returned: Some(call(name("g"), vec![name("x")])) }]),
            fdef("g", &["u"], vec![PyStmt::Return { returned: Some(name("u")) }]),
        ],
    );
    let p = ProjectIndex::from_modules(vec![m]);
    let g = CallGraphBuilder::build(&p);
    let mut e = TaintEngine::new(p, g);
    assert!(e.summaries.iter().all(|s| s.is_none()));
    e.run();
    let s0 = e.summaries[0].as_ref().unwrap();
    assert_eq!(s0.param_tainted, vec![false, false]);
    assert!(!s0.return_tainted);
    let s1 = e.summaries[1].as_ref().unwrap();
    assert_eq!(s1.param_tainted, vec![false]);
    let again = e.recompute_summary(&fid("a.py", "f"));
    assert!(summary_eq(&again, s0));
    assert!(find_vulnerabilities(&e).is_empty());
}

#[test]
fn summary_equality_compares_all_fields() {
    let a = FunctionSummary { param_tainted: vec![true, false], return_tainted: false };
    let b = FunctionSummary { param_tainted: vec![true, false], return_tainted: false };
    let c = FunctionSummary { param_tainted: vec![true, true], return_tainted: false };
    let d = FunctionSummary { param_tainted: vec![true, false], return_tainted: true };
    let e = FunctionSummary { param_tainted: vec![true], return_tainted: false };
    assert!(summary_eq(&a, &b));
    assert!(!summary_eq(&a, &c));
    assert!(!summary_eq(&a, &d));
    assert!(!summary_eq(&a, &e));
}

#[test]
fn web_route_decorators() {
    let dec = |m: &str| call(PyExpr::Attribute { value: Box::new(name("app")), attr: m.to_string() }, vec![]);
    for m in ["route", "get", "post", "put", "delete"] {
        assert!(is_web_route(&dec(m)), "{}", m);
    }
    assert!(!is_web_route(&dec("patch")));
    assert!(!is_web_route(&call(name("route"), vec![])));
    assert!(!is_web_route(&PyExpr::Attribute { value: Box::new(name("app")), attr: "route".to_string() }));
}

#[test]
fn sarif_report_has_one_result_per_finding() {
    let v = |file: &str, line: usize| Vulnerability {
        id: "TOTAL-SQL-001".to_string(),
        message: "m".to_string(),
        severity: "CRITICAL".to_string(),
        file: file.to_string(),
        line,
        recommendation: "r".to_string(),
    };
    let r = sarif_report(&vec![v("a.py", 3), v("b.py", 7)]);
    assert_eq!(r.version, "2.1.0");
    assert_eq!(r.schema, "https://json.schemastore.org/sarif-2.1.0.json");
    assert_eq!(r.runs.len(), 1);
    let run = &r.runs[0];
    assert_eq!(run.tool.driver.name, "TOTAL-Analyzer-v2.0");
    assert_eq!(run.tool.driver.information_uri, "https://total-protocol.com");
    // SQL findings only: the single SQL rule
    assert_eq!(run.tool.driver.rules.len(), 1);
    assert_eq!(run.tool.driver.rules[0].id, "TOTAL-SQL-001");
    assert_eq!(run.tool.driver.rules[0].short_description.text, "SQL injection");
    assert_eq!(run.tool.driver.rules[0].default_configuration.level, "error");
    assert_eq!(run.results.len(), 2);
    assert_eq!(run.results[1].rule_id, "TOTAL-SQL-001");
    assert_eq!(run.results[1].level, "error");
    assert_eq!(run.results[1].message.text, "m");
    assert_eq!(run.results[1].locations[0].physical_location.artifact_location.uri, "b.py");
    assert_eq!(run.results[1].locations[0].physical_location.region.start_line, 7);
    assert_eq!(sarif_report(&vec![]).runs[0].results.len(), 0);
}

#[test]
fn sarif_crypto_result_is_a_note_under_its_own_rule() {
    let crypto = Vulnerability {
        id: "TOTAL-CRYPTO-001".to_string(),
        message: "Sentinel Guard: software cryptography call".to_string(),
        severity: "INFO".to_string(),
        file: "c.py".to_string(),
        line: 4,
        recommendation: "r".to_string(),
    };
    let r = sarif_report(&vec![crypto]);
    let run = &r.runs[0];
    assert_eq!(run.results[0].rule_id, "TOTAL-CRYPTO-001");
    assert_eq!(run.results[0].level, "note");
    assert_eq!(run.tool.driver.rules.len(), 2);
    assert_eq!(run.tool.driver.rules[1].id, "TOTAL-CRYPTO-001");
    assert_eq!(run.tool.driver.rules[1].default_configuration.level, "note");
}

#[test]
fn dynamic_callees_are_not_resolved() {
    let p = ProjectIndex::from_modules(vec![module("a.py", vec![fdef("f", &[], vec![]), fdef("getattr", &[], vec![])])]);
    let b = CallGraphBuilder { project: &p, graph: CallGraph::new(), current_func: None };
    // importlib.import_module("a").f()
    let via_module = PyExpr::Attribute {
        value: Box::new(call(name("import_module"), vec![])),
        attr: "f".to_string(),
    };
    assert!(b.resolve_call(&call(via_module, vec![])).is_none());
    // getattr(obj, "f")()
    assert!(b.resolve_call(&call(call(name("getattr"), vec![name("obj")]), vec![])).is_none());
    // a plain name still resolves
    assert_eq!(b.resolve_call(&call(name("f"), vec![])).unwrap().name, "f");
}

#[test]
fn python_paths_are_those_with_a_py_extension() {
    let py = |p: &str| total_analyzer::project::is_python_path(&p.to_string());
    assert!(py("a/b.py"));
    assert!(py("b.py"));
    assert!(py("x.tar.py"));
    assert!(py("dir/pkg.py/"));
    assert!(!py("a/.py"));
    assert!(!py("a/b.pyc"));
    assert!(!py("a.py/b"));
    assert!(!py("py"));
    assert!(!py(""));
}
