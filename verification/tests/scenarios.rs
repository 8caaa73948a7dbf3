use total_analyzer::analysis::analyze_modules;
use total_analyzer::pyast::{BinOperator, FStringPart, PyExpr, PyFunctionDef, PyModule, PyNode, PyStmt, StmtKind};
use total_analyzer::sinks::Vulnerability;

fn name(id: &str) -> PyExpr {
    PyExpr::Name { id: id.to_string() }
}

fn attr(value: PyExpr, a: &str) -> PyExpr {
    PyExpr::Attribute { value: Box::new(value), attr: a.to_string() }
}

fn call(func: PyExpr, args: Vec<PyExpr>, offset: u32) -> PyExpr {
    PyExpr::Call { func: Box::new(func), args, keywords: vec![], offset }
}

fn literal() -> PyExpr {
    PyExpr::Other { children: vec![] }
}

fn fstring(values: Vec<PyExpr>) -> PyExpr {
    let mut parts = vec![FStringPart::Literal];
    for v in values {
        parts.push(FStringPart::Value { expression: v });
    }
    PyExpr::FString { parts }
}

fn route(method: &str) -> PyExpr {
    call(attr(name("app"), method), vec![literal()], 0)
}

fn def(fname: &str, params: &[&str], decorators: Vec<PyExpr>, body: Vec<PyStmt>) -> PyStmt {
    PyStmt::FunctionDef {
        def: PyFunctionDef {
            name: fname.to_string(),
            params: params.iter().map(|p| p.to_string()).collect(),
            decorators,
            header: vec![],
            body,
        },
    }
}

fn expr_stmt(e: PyExpr) -> PyStmt {
    PyStmt::Expr { value: e }
}

fn module(path: &str, source: &str, body: Vec<PyStmt>) -> PyModule {
    PyModule { path: path.to_string(), source: source.to_string(), body }
}

fn offset_of(source: &str, needle: &str) -> u32 {
    source.find(needle).unwrap() as u32
}

/// A route handler whose single statement (on line 3) calls `sink` with `arg`.
fn handler_with(sink: PyExpr, arg: PyExpr, source: &str, needle: &str) -> Vec<Vulnerability> {
    let off = offset_of(source, needle);
    let body = vec![expr_stmt(call(sink, vec![arg], off))];
    let m = module("app.py", source, vec![def("handler", &["uid"], vec![route("route")], body)]);
    analyze_modules(vec![m])
}

const SRC: &str = "@app.route(\"/user\")\ndef handler(uid):\n    cursor.execute(q)\n";

#[test]
fn readme_fstring_in_route_is_reported() {
    let found = handler_with(
        attr(name("cursor"), "execute"),
        fstring(vec![name("uid")]),
        SRC,
        "cursor.execute",
    );
    assert_eq!(found.len(), 1);
    let v = &found[0];
    assert_eq!(v.id, "TOTAL-SQL-001");
    assert_eq!(v.severity, "CRITICAL");
    assert_eq!(v.message, "SQL Injection: tainted data in DB sink");
    assert_eq!(v.recommendation, "Use parameterized queries or Sentinel Shield");
    assert_eq!(v.file, "app.py");
    // the call stands on line 3
    assert_eq!(v.line, 3);
}

#[test]
fn concatenation_is_reported() {
    let e = PyExpr::BinOp {
        op: BinOperator::Add,
        left: Box::new(literal()),
        right: Box::new(name("uid")),
    };
    assert_eq!(handler_with(attr(name("cursor"), "execute"), e, SRC, "cursor").len(), 1);
}

#[test]
fn percent_formatting_is_reported() {
    let e = PyExpr::BinOp { op: BinOperator::Mod, left: Box::new(literal()), right: Box::new(name("uid")) };
    assert_eq!(handler_with(attr(name("cursor"), "execute"), e, SRC, "cursor").len(), 1);
}

#[test]
fn other_operators_do_not_propagate() {
    let e = PyExpr::BinOp { op: BinOperator::Other, left: Box::new(literal()), right: Box::new(name("uid")) };
    assert_eq!(handler_with(attr(name("cursor"), "execute"), e, SRC, "cursor").len(), 0);
}

#[test]
fn sanitizers_stop_taint() {
    for s in ["int", "float", "bindparam"] {
        let e = call(name(s), vec![name("uid")], 0);
        assert_eq!(handler_with(attr(name("cursor"), "execute"), e, SRC, "cursor").len(), 0, "{}", s);
    }
}

#[test]
fn passing_tainted_values_as_arguments_propagates() {
    let e = call(name("build_query"), vec![name("uid")], 0);
    assert_eq!(handler_with(attr(name("cursor"), "execute"), e, SRC, "cursor").len(), 1);
}

#[test]
fn all_sinks_are_detected() {
    for m in ["execute", "executemany", "raw", "run_sql"] {
        assert_eq!(handler_with(attr(name("db"), m), name("uid"), SRC, "cursor").len(), 1, "{}", m);
    }
    for f in ["execute", "run_sql"] {
        assert_eq!(handler_with(name(f), name("uid"), SRC, "cursor").len(), 1, "{}", f);
    }
    assert_eq!(handler_with(attr(name("db"), "query"), name("uid"), SRC, "cursor").len(), 0);
    assert_eq!(handler_with(name("raw"), name("uid"), SRC, "cursor").len(), 0);
}

#[test]
fn untainted_arguments_are_not_reported() {
    assert_eq!(handler_with(attr(name("cursor"), "execute"), literal(), SRC, "cursor").len(), 0);
    assert_eq!(handler_with(attr(name("cursor"), "execute"), name("other"), SRC, "cursor").len(), 0);
}

#[test]
fn fastapi_decorators_are_sources() {
    for m in ["get", "post", "put", "delete"] {
        let off = offset_of(SRC, "cursor");
        let body = vec![expr_stmt(call(attr(name("cursor"), "execute"), vec![name("uid")], off))];
        let md = module("api.py", SRC, vec![def("handler", &["uid"], vec![route(m)], body)]);
        assert_eq!(analyze_modules(vec![md]).len(), 1, "{}", m);
    }
    // a decorator that is not a route call marks nothing
    let body = vec![expr_stmt(call(attr(name("cursor"), "execute"), vec![name("uid")], 0))];
    let md = module("api.py", SRC, vec![def("handler", &["uid"], vec![attr(name("app"), "route")], body)]);
    assert_eq!(analyze_modules(vec![md]).len(), 0);
}

#[test]
fn assignment_propagates_taint() {
    let src = "@app.route(\"/\")\ndef h(uid):\n    q = f\"SELECT {uid}\"\n    cursor.execute(q)\n";
    let off = offset_of(src, "cursor");
    let body = vec![
        PyStmt::Assign { targets: vec![name("q")], value: fstring(vec![name("uid")]) },
        expr_stmt(call(attr(name("cursor"), "execute"), vec![name("q")], off)),
    ];
    let md = module("a.py", src, vec![def("h", &["uid"], vec![route("route")], body)]);
    let found = analyze_modules(vec![md]);
    assert_eq!(found.len(), 1);
    assert_eq!(found[0].line, 4);
}

#[test]
fn sanitized_assignment_does_not_taint() {
    let body = vec![
        PyStmt::Assign { targets: vec![name("q")], value: call(name("int"), vec![name("uid")], 0) },
        expr_stmt(call(attr(name("cursor"), "execute"), vec![name("q")], 0)),
    ];
    let md = module("a.py", SRC, vec![def("h", &["uid"], vec![route("route")], body)]);
    assert_eq!(analyze_modules(vec![md]).len(), 0);
}

#[test]
fn limitation_no_cross_function_taint() {
    // @app.route("/user") def get_user(id): return build_query(id)
    // def build_query(uid): return f"SELECT * FROM users WHERE id = {uid}"  -> no alert
    let get_user = def(
        "get_user",
        &["id"],
        vec![route("route")],
        vec![PyStmt::Return { returned: Some(call(name("build_query"), vec![name("id")], 0)) }],
    );
    let build_query = def(
        "build_query",
        &["uid"],
        vec![],
        vec![
            expr_stmt(call(attr(name("cursor"), "execute"), vec![fstring(vec![name("uid")])], 0)),
            PyStmt::Return { returned: Some(fstring(vec![name("uid")])) },
        ],
    );
    let md = module("q.py", SRC, vec![get_user, build_query]);
    assert_eq!(analyze_modules(vec![md]).len(), 0);
}

#[test]
fn sinks_in_nested_blocks_and_nested_calls_are_found() {
    let src = "@app.route(\"/\")\ndef h(uid):\n    if x:\n        log(cursor.execute(uid))\n";
    let off = offset_of(src, "cursor");
    let inner = || call(attr(name("cursor"), "execute"), vec![name("uid")], off);
    let log = || expr_stmt(call(name("log"), vec![inner()], 0));
    let if_stmt = PyStmt::Other {
        kind: StmtKind::If,
        nodes: vec![PyNode::Expr { expr: name("x") }, PyNode::Stmt { stmt: log() }],
        suites: vec![vec![log()]],
    };
    let md = module("n.py", src, vec![def("h", &["uid"], vec![route("route")], vec![if_stmt])]);
    let found = analyze_modules(vec![md]);
    assert_eq!(found.len(), 1);
    assert_eq!(found[0].line, 4);
}

#[test]
fn one_finding_per_sink_call() {
    let body = vec![expr_stmt(call(attr(name("c"), "execute"), vec![name("uid"), name("uid")], 0))];
    let md = module("o.py", SRC, vec![def("h", &["uid"], vec![route("route")], body)]);
    let found = analyze_modules(vec![md]);
    assert_eq!(found.len(), 1);
    assert_eq!(found[0].line, 1);
}

#[test]
fn findings_follow_functions_in_index_order() {
    let src_a = "x\ny\n";
    let a = module(
        "a.py",
        src_a,
        vec![def("f", &["p"], vec![route("route")], vec![expr_stmt(call(name("execute"), vec![name("p")], 2))])],
    );
    let b = module(
        "b.py",
        "z\n",
        vec![def("g", &["p"], vec![route("get")], vec![expr_stmt(call(name("run_sql"), vec![name("p")], 0))])],
    );
    let found = analyze_modules(vec![a, b]);
    assert_eq!(found.len(), 2);
    assert_eq!(found[0].file, "a.py");
    assert_eq!(found[0].line, 2);
    assert_eq!(found[1].file, "b.py");
    assert_eq!(found[1].line, 1);
}

#[test]
fn concatenated_query_reported_on_line_three() {
    let src = "@app.route('/u')\ndef get_user(id):\n    cursor.execute('SELECT * FROM t WHERE id=' + id, id)\n";
    let concat = PyExpr::BinOp { op: BinOperator::Add, left: Box::new(literal()), right: Box::new(name("id")) };
    let body = vec![expr_stmt(call(attr(name("cursor"), "execute"), vec![concat, name("id")], offset_of(src, "cursor")))];
    let md = module("app.py", src, vec![def("get_user", &["id"], vec![route("route")], body)]);
    let found = analyze_modules(vec![md]);
    assert_eq!(found.len(), 1);
    assert_eq!(found[0].line, 3);
}

#[test]
fn sentinel_guard_reports_crypto_calls() {
    let src = "def protect(key, data):\n    return cipher.encrypt(key, data)\n";
    let body = vec![PyStmt::Return {
        returned: Some(call(attr(name("cipher"), "encrypt"), vec![name("key"), name("data")], offset_of(src, "cipher"))),
    }];
    let md = module("app.py", src, vec![def("protect", &["key", "data"], vec![], body)]);
    let found = analyze_modules(vec![md]);
    assert_eq!(found.len(), 1);
    assert_eq!(found[0].id, "TOTAL-CRYPTO-001");
    assert_eq!(found[0].severity, "INFO");
    assert_eq!(found[0].message, "Sentinel Guard: software cryptography call");
    assert_eq!(
        found[0].recommendation,
        "Offload cryptography to hardware (HSM/FPGA) for performance and compliance"
    );
    assert_eq!(found[0].file, "app.py");
    assert_eq!(found[0].line, 2);
    for n in ["sign", "PBKDF2", "hash"] {
        let body = vec![expr_stmt(call(attr(name("k"), n), vec![], 0))];
        let md = module("c.py", src, vec![def("f", &[], vec![], body)]);
        assert_eq!(analyze_modules(vec![md]).len(), 1, "{}", n);
        let body = vec![expr_stmt(call(name(n), vec![], 0))];
        let md = module("c.py", src, vec![def("f", &[], vec![], body)]);
        assert_eq!(analyze_modules(vec![md]).len(), 1, "{}", n);
    }
    let body = vec![expr_stmt(call(attr(name("k"), "decrypt"), vec![], 0))];
    let md = module("c.py", src, vec![def("f", &[], vec![], body)]);
    assert_eq!(analyze_modules(vec![md]).len(), 0);
}

#[test]
fn awaited_sinks_are_not_reported() {
    let src = "@app.get('/u')\nasync def get_user(id):\n    await conn.execute(f'SELECT * FROM t WHERE id={id}')\n";
    let inner = call(attr(name("conn"), "execute"), vec![fstring(vec![name("id")])], offset_of(src, "conn"));
    let body = vec![expr_stmt(PyExpr::Await { value: Box::new(inner) })];
    let md = module("app.py", src, vec![def("get_user", &["id"], vec![route("get")], body)]);
    assert_eq!(analyze_modules(vec![md]).len(), 0);
    // a sink nested in the arguments of an awaited call is still reported
    let nested = call(attr(name("c"), "execute"), vec![name("id")], offset_of(src, "conn"));
    let outer = call(name("fetch"), vec![nested], 0);
    let body = vec![expr_stmt(PyExpr::Await { value: Box::new(outer) })];
    let md = module("app.py", src, vec![def("get_user", &["id"], vec![route("get")], body)]);
    assert_eq!(analyze_modules(vec![md]).len(), 1);
    // an awaited cryptography call is still reported
    let body = vec![expr_stmt(PyExpr::Await { value: Box::new(call(attr(name("k"), "sign"), vec![], 0)) })];
    let md = module("app.py", src, vec![def("get_user", &["id"], vec![route("get")], body)]);
    assert_eq!(analyze_modules(vec![md])[0].id, "TOTAL-CRYPTO-001");
}
