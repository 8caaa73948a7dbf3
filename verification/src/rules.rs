use vstd::prelude::*;

verus! {

/// Whether `s` holds exactly the characters of `lit`.
pub fn text_is(s: &String, lit: &str) -> (r: bool)
    ensures
        r == (s@ == lit@),
{
    let l = String::from_str(lit);
    *s == l
}

/// Calls to these functions return untainted data: `int()`, `float()`,
/// `bindparam()`.
pub open spec fn is_sanitizer(id: Seq<char>) -> bool {
    id == "int"@ || id == "float"@ || id == "bindparam"@
}

/// Decorator methods that make a function a web route (`@app.route`,
/// `@app.get`, ...): its parameters are taint sources.
pub open spec fn is_route_method(attr: Seq<char>) -> bool {
    attr == "route"@ || attr == "get"@ || attr == "post"@ || attr == "put"@ || attr == "delete"@
}

/// Methods whose call is a database sink (`cursor.execute(...)`, ...).
pub open spec fn is_sink_method(attr: Seq<char>) -> bool {
    attr == "execute"@ || attr == "executemany"@ || attr == "raw"@ || attr == "run_sql"@
}

/// Plain functions whose call is a database sink (`execute(...)`).
pub open spec fn is_sink_function(id: Seq<char>) -> bool {
    id == "execute"@ || id == "run_sql"@
}

/// Calls of software cryptography that Sentinel Guard reports: `encrypt`,
/// `sign`, `PBKDF2`, `hash`.
pub open spec fn is_crypto_name(n: Seq<char>) -> bool {
    n == "encrypt"@ || n == "sign"@ || n == "PBKDF2"@ || n == "hash"@
}

pub fn crypto_name(n: &String) -> (r: bool)
    ensures
        r == is_crypto_name(n@),
{
    text_is(n, "encrypt") || text_is(n, "sign") || text_is(n, "PBKDF2") || text_is(n, "hash")
}

pub fn sanitizer_name(id: &String) -> (r: bool)
    ensures
        r == is_sanitizer(id@),
{
    text_is(id, "int") || text_is(id, "float") || text_is(id, "bindparam")
}

pub fn route_method_name(attr: &String) -> (r: bool)
    ensures
        r == is_route_method(attr@),
{
    text_is(attr, "route") || text_is(attr, "get") || text_is(attr, "post") || text_is(attr, "put")
        || text_is(attr, "delete")
}

pub fn sink_method_name(attr: &String) -> (r: bool)
    ensures
        r == is_sink_method(attr@),
{
    text_is(attr, "execute") || text_is(attr, "executemany") || text_is(attr, "raw") || text_is(
        attr,
        "run_sql",
    )
}

pub fn sink_function_name(id: &String) -> (r: bool)
    ensures
        r == is_sink_function(id@),
{
    text_is(id, "execute") || text_is(id, "run_sql")
}

} // verus!
