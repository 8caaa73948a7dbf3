use vstd::prelude::*;

use crate::function_id::FunctionId;
use crate::pyast::{PyFunctionDef, PyModule, PyStmt};
use vstd::utf8::encode_utf8;

verus! {

/// The view of a function identifier: (file, name).
pub type FidView = (Seq<char>, Seq<char>);

/// One entry of the function map: an identifier and where its definition
/// is stored, as (module index, function index).
pub type MapEntry = (FunctionId, (usize, usize));

/// The view of the function map's entries, in their order.
pub open spec fn entries_view(entries: Seq<MapEntry>) -> Seq<(FidView, (usize, usize))> {
    entries.map_values(|e: MapEntry| (e.0@, e.1))
}

/// No key occurs twice.
pub open spec fn keys_unique(s: Seq<(FidView, (usize, usize))>) -> bool {
    forall|i: int, j: int| 0 <= i < s.len() && 0 <= j < s.len() && i != j ==> s[i].0 != s[j].0
}

/// Inserting into an ordered map: a present key keeps its place and takes
/// the new value, an absent key is appended.
pub open spec fn seq_map_insert(
    s: Seq<(FidView, (usize, usize))>,
    k: FidView,
    v: (usize, usize),
) -> Seq<(FidView, (usize, usize))> {
    if exists|i: int| 0 <= i < s.len() && s[i].0 == k {
        s.update(choose|i: int| 0 <= i < s.len() && s[i].0 == k, (k, v))
    } else {
        s.push((k, v))
    }
}

/// The value stored under `k`, if any.
pub open spec fn seq_map_get(s: Seq<(FidView, (usize, usize))>, k: FidView) -> Option<(usize, usize)> {
    if exists|i: int| 0 <= i < s.len() && s[i].0 == k {
        Some(s[choose|i: int| 0 <= i < s.len() && s[i].0 == k].1)
    } else {
        None
    }
}

/// The top-level `def` statements of a suite, in order.
pub open spec fn top_defs(body: Seq<PyStmt>) -> Seq<PyFunctionDef>
    decreases body.len(),
{
    if body.len() == 0 {
        Seq::empty()
    } else {
        let rest = top_defs(body.drop_last());
        match body.last() {
            PyStmt::FunctionDef { def } => rest.push(def),
            _ => rest,
        }
    }
}

/// The entries after indexing the first `n` definitions of module `m`.
pub open spec fn index_defs(
    s: Seq<(FidView, (usize, usize))>,
    m: int,
    path: Seq<char>,
    defs: Seq<PyFunctionDef>,
    n: int,
) -> Seq<(FidView, (usize, usize))>
    decreases n,
{
    if n <= 0 {
        s
    } else {
        seq_map_insert(
            index_defs(s, m, path, defs, n - 1),
            (path, defs[n - 1].name@),
            (m as usize, (n - 1) as usize),
        )
    }
}

/// The function map built from the first `n` modules: each top-level
/// definition is inserted under (module path, function name), later
/// definitions replacing earlier ones with the same key.
pub open spec fn index_modules(mods: Seq<PyModule>, n: int) -> Seq<(FidView, (usize, usize))>
    decreases n,
{
    if n <= 0 {
        Seq::empty()
    } else {
        let defs = top_defs(mods[n - 1].body@);
        index_defs(index_modules(mods, n - 1), n - 1, mods[n - 1].path@, defs, defs.len() as int)
    }
}

/// `e` points at a top-level definition of one of the first `n` modules,
/// whose path and name form its key.
pub open spec fn points_into(e: (FidView, (usize, usize)), mods: Seq<PyModule>, n: int) -> bool {
    let (k, (m, f)) = e;
    &&& m < n
    &&& f < top_defs(mods[m as int].body@).len()
    &&& mods[m as int].path@ == k.0
    &&& top_defs(mods[m as int].body@)[f as int].name@ == k.1
}

pub proof fn lemma_insert_keeps_unique(s: Seq<(FidView, (usize, usize))>, k: FidView, v: (usize, usize))
    requires
        keys_unique(s),
    ensures
        keys_unique(seq_map_insert(s, k, v)),
        forall|i: int|
            0 <= i < seq_map_insert(s, k, v).len() ==> #[trigger] seq_map_insert(s, k, v)[i] == (k, v)
                || (i < s.len() && seq_map_insert(s, k, v)[i] == s[i]),
{
}

pub proof fn lemma_index_defs_prefix(
    s: Seq<(FidView, (usize, usize))>,
    m: int,
    path: Seq<char>,
    d1: Seq<PyFunctionDef>,
    d2: Seq<PyFunctionDef>,
    n: int,
)
    requires
        n <= d1.len(),
        n <= d2.len(),
        forall|i: int| 0 <= i < n ==> d1[i] == d2[i],
    ensures
        index_defs(s, m, path, d1, n) == index_defs(s, m, path, d2, n),
    decreases n,
{
    if n > 0 {
        lemma_index_defs_prefix(s, m, path, d1, d2, n - 1);
    }
}

proof fn lemma_index_defs_points(
    s: Seq<(FidView, (usize, usize))>,
    mods: Seq<PyModule>,
    m: int,
    cnt: int,
)
    requires
        0 <= m < mods.len(),
        m < usize::MAX,
        cnt <= top_defs(mods[m].body@).len(),
        top_defs(mods[m].body@).len() <= usize::MAX,
        keys_unique(s),
        forall|i: int| 0 <= i < s.len() ==> points_into(#[trigger] s[i], mods, m + 1),
    ensures
        ({
            let r = index_defs(s, m, mods[m].path@, top_defs(mods[m].body@), cnt);
            &&& keys_unique(r)
            &&& forall|i: int| 0 <= i < r.len() ==> points_into(#[trigger] r[i], mods, m + 1)
        }),
    decreases cnt,
{
    if cnt > 0 {
        let defs = top_defs(mods[m].body@);
        lemma_index_defs_points(s, mods, m, cnt - 1);
        let prev = index_defs(s, m, mods[m].path@, defs, cnt - 1);
        lemma_insert_keeps_unique(prev, (mods[m].path@, defs[cnt - 1].name@), (m as usize, (cnt - 1) as usize));
        let r = index_defs(s, m, mods[m].path@, defs, cnt);
        assert forall|i: int| 0 <= i < r.len() implies points_into(#[trigger] r[i], mods, m + 1) by {
            if i < prev.len() && r[i] == prev[i] {
            } else {
                assert(r[i] == ((mods[m].path@, defs[cnt - 1].name@), (m as usize, (cnt - 1) as usize)));
            }
        }
    }
}

/// Every entry of the index built from the first `n` modules points at a
/// definition of that name in a module of that path, and no key occurs twice.
pub proof fn lemma_index_modules_points(mods: Seq<PyModule>, n: int)
    requires
        0 <= n <= mods.len(),
        n <= usize::MAX,
        forall|i: int| 0 <= i < n ==> #[trigger] top_defs(mods[i].body@).len() <= usize::MAX,
    ensures
        keys_unique(index_modules(mods, n)),
        forall|i: int|
            0 <= i < index_modules(mods, n).len() ==> points_into(
                #[trigger] index_modules(mods, n)[i],
                mods,
                n,
            ),
    decreases n,
{
    if n > 0 {
        lemma_index_modules_points(mods, n - 1);
        let defs = top_defs(mods[n - 1].body@);
        lemma_index_defs_points(index_modules(mods, n - 1), mods, n - 1, defs.len() as int);
    }
}

/// The source text is short enough for byte offsets to fit in a `u32`, and
/// for line numbers counted past its end to fit in a `usize`.
pub open spec fn source_fits(source: Seq<char>) -> bool {
    &&& encode_utf8(source).len() <= u32::MAX
    &&& encode_utf8(source).len() + 2 <= usize::MAX
}

/// The end of `path.take(n)` once trailing `/`s are dropped.
pub open spec fn trimmed_end(path: Seq<char>, n: int) -> int
    decreases n,
{
    if n > 0 && path[n - 1] == '/' {
        trimmed_end(path, n - 1)
    } else {
        n
    }
}

/// Where the last `/`-free run of characters that ends at `n` begins.
pub open spec fn segment_start(path: Seq<char>, n: int) -> int
    decreases n,
{
    if n > 0 && path[n - 1] != '/' {
        segment_start(path, n - 1)
    } else {
        n
    }
}

/// The file name of a path: its last `/`-separated segment, trailing `/`s
/// dropped.
pub open spec fn file_name_of(path: Seq<char>) -> Seq<char> {
    let e = trimmed_end(path, path.len() as int);
    path.subrange(segment_start(path, e), e)
}

/// A file name whose extension is `py`: it ends in `.py` and that `.` is not
/// its first character (`.py` alone is a hidden file with no extension).
pub open spec fn has_py_extension(name: Seq<char>) -> bool {
    name.len() > 3 && name.subrange(name.len() - 3, name.len() as int) == ".py"@
}

/// Whether the analysis reads the file at `path`: its extension is `py`.
pub fn is_python_path(path: &String) -> (r: bool)
    ensures
        r == has_py_extension(file_name_of(path@)),
{
    let s = path.as_str();
    let n = s.unicode_len();
    let mut e: usize = n;
    while e > 0 && s.get_char(e - 1) == '/'
        invariant
            e <= n,
            n == path@.len(),
            s@ == path@,
            trimmed_end(path@, n as int) == trimmed_end(path@, e as int),
        decreases e,
    {
        e = e - 1;
    }
    let mut b: usize = e;
    while b > 0 && s.get_char(b - 1) != '/'
        invariant
            b <= e <= n,
            n == path@.len(),
            s@ == path@,
            segment_start(path@, e as int) == segment_start(path@, b as int),
        decreases b,
    {
        b = b - 1;
    }
    let ghost name = file_name_of(path@);
    assert(trimmed_end(path@, n as int) == e);
    assert(segment_start(path@, e as int) == b);
    assert(name == path@.subrange(b as int, e as int));
    proof {
        reveal_strlit(".py");
    }
    if e - b <= 3 {
        return false;
    }
    let r = s.get_char(e - 3) == '.' && s.get_char(e - 2) == 'p' && s.get_char(e - 1) == 'y';
    proof {
        let tail = path@.subrange(e - 3, e as int);
        assert(name.subrange(name.len() - 3, name.len() as int) =~= tail);
        assert(".py"@.len() == 3 && ".py"@[0] == '.' && ".py"@[1] == 'p' && ".py"@[2] == 'y');
        if r {
            assert(tail =~= ".py"@);
        } else if tail == ".py"@ {
            assert(tail[0] == '.' && tail[1] == 'p' && tail[2] == 'y');
        }
    }
    r
}

/// Inserts `k => v` into the ordered map `entries`.
pub fn map_insert(entries: &mut Vec<MapEntry>, k: FunctionId, v: (usize, usize))
    requires
        keys_unique(entries_view(old(entries)@)),
    ensures
        entries_view(final(entries)@) == seq_map_insert(entries_view(old(entries)@), k@, v),
{
    let ghost s = entries_view(entries@);
    let mut i: usize = 0;
    while i < entries.len()
        invariant
            0 <= i <= entries.len(),
            s == entries_view(entries@),
            s == entries_view(old(entries)@),
            keys_unique(s),
            forall|j: int| 0 <= j < i ==> s[j].0 != k@,
        decreases entries.len() - i,
    {
        if entries[i].0.same_as(&k) {
            proof {
                assert(s[i as int].0 == k@);
                let c = choose|c: int| 0 <= c < s.len() && s[c].0 == k@;
                assert(c == i);
            }
            let ghost kv = k@;
            entries.set(i, (k, v));
            assert(entries_view(entries@) =~= s.update(i as int, (kv, v)));
            assert(seq_map_insert(s, kv, v) == s.update(i as int, (kv, v)));
            return;
        }
        i = i + 1;
    }
    let ghost kv = k@;
    entries.push((k, v));
    assert(entries_view(entries@) =~= s.push((kv, v)));
}

/// `i` is the first entry whose key has function name `id`.
pub open spec fn is_first_named(s: Seq<(FidView, (usize, usize))>, id: Seq<char>, i: int) -> bool {
    &&& 0 <= i < s.len()
    &&& s[i].0.1 == id
    &&& forall|j: int| 0 <= j < i ==> s[j].0.1 != id
}

/// The first entry, in map order, of a function named `id`.
pub open spec fn first_named(s: Seq<(FidView, (usize, usize))>, id: Seq<char>) -> Option<int> {
    if exists|i: int| is_first_named(s, id, i) {
        Some(choose|i: int| is_first_named(s, id, i))
    } else {
        None
    }
}

proof fn lemma_first_named_exists(s: Seq<(FidView, (usize, usize))>, id: Seq<char>, j: int)
    requires
        0 <= j < s.len(),
        s[j].0.1 == id,
    ensures
        exists|i: int| is_first_named(s, id, i),
    decreases j,
{
    if forall|k: int| 0 <= k < j ==> s[k].0.1 != id {
        assert(is_first_named(s, id, j));
    } else {
        let k = choose|k: int| 0 <= k < j && s[k].0.1 == id;
        lemma_first_named_exists(s, id, k);
    }
}

/// `first_named` is `None` exactly when no key has that function name.
pub proof fn lemma_first_named_none(s: Seq<(FidView, (usize, usize))>, id: Seq<char>)
    ensures
        first_named(s, id) is None <==> forall|j: int| 0 <= j < s.len() ==> s[j].0.1 != id,
{
    if exists|j: int| 0 <= j < s.len() && s[j].0.1 == id {
        let j = choose|j: int| 0 <= j < s.len() && s[j].0.1 == id;
        lemma_first_named_exists(s, id, j);
    }
}

/// A parsed module as the index keeps it: its path, its source text and its
/// top-level function definitions.
pub struct ModuleData {
    pub path: String,
    pub source: String,
    pub functions: Vec<PyFunctionDef>,
}

/// All modules of a project and a map from function identifiers to the
/// definitions.
pub struct ProjectIndex {
    pub modules: Vec<ModuleData>,
    pub function_map: Vec<MapEntry>,
}

impl ProjectIndex {
    /// The function map as an ordered sequence of (key, position).
    pub open spec fn map_view(&self) -> Seq<(FidView, (usize, usize))> {
        entries_view(self.function_map@)
    }

    /// Every key occurs once and points at a stored definition of that name
    /// in a module of that path; every source fits `u32` byte offsets.
    pub open spec fn wf(&self) -> bool {
        &&& keys_unique(self.map_view())
        &&& forall|m: int| 0 <= m < self.modules.len() ==> source_fits(#[trigger] self.modules@[m].source@)
        &&& forall|i: int|
            0 <= i < self.function_map.len() ==> {
                let (k, (m, f)) = #[trigger] self.map_view()[i];
                &&& m < self.modules.len()
                &&& f < self.modules@[m as int].functions.len()
                &&& self.modules@[m as int].path@ == k.0
                &&& self.modules@[m as int].functions@[f as int].name@ == k.1
            }
    }

    /// Indexes parsed modules: keeps each module's path, source and top-level
    /// function definitions, and maps (path, name) of every top-level
    /// definition to its position; a later definition with the same key
    /// replaces an earlier one.
    pub fn from_modules(mods: Vec<PyModule>) -> (r: ProjectIndex)
        requires
            forall|i: int| 0 <= i < mods.len() ==> source_fits(#[trigger] mods@[i].source@),
        ensures
            r.wf(),
            r.modules.len() == mods.len(),
            forall|i: int|
                0 <= i < mods.len() ==> {
                    &&& (#[trigger] r.modules@[i]).path == mods@[i].path
                    &&& r.modules@[i].source == mods@[i].source
                    &&& r.modules@[i].functions@ == top_defs(mods@[i].body@)
                },
            r.map_view() == index_modules(mods@, mods.len() as int),
    {
        let ghost all = mods@;
        let mut rest = mods;
        let mut modules: Vec<ModuleData> = Vec::new();
        let mut function_map: Vec<MapEntry> = Vec::new();
        while rest.len() > 0
            invariant
                modules.len() + rest.len() == all.len(),
                rest@ == all.skip(modules.len() as int),
                forall|i: int|
                    0 <= i < modules.len() ==> {
                        &&& (#[trigger] modules@[i]).path == all[i].path
                        &&& modules@[i].source == all[i].source
                        &&& modules@[i].functions@ == top_defs(all[i].body@)
                    },
                entries_view(function_map@) == index_modules(all, modules.len() as int),
                keys_unique(entries_view(function_map@)),
                forall|i: int|
                    0 <= i < modules.len() ==> #[trigger] top_defs(all[i].body@).len() <= usize::MAX,
            decreases rest.len(),
        {
            let ghost mi = modules.len() as int;
            let module = rest.remove(0);
            assert(module == all[mi]);
            let PyModule { path, source, body } = module;
            let ghost body0 = body@;
            let mut body = body;
            let mut functions: Vec<PyFunctionDef> = Vec::new();
            let mut func_idx: usize = 0;
            let mut taken: usize = 0;
            let blen = body.len();
            while body.len() > 0
                invariant
                    blen == body0.len(),
                    mi == modules.len(),
                    mi < all.len(),
                    path == all[mi].path,
                    body0 == all[mi].body@,
                    taken + body.len() == body0.len(),
                    body@ == body0.skip(taken as int),
                    functions@ == top_defs(body0.take(taken as int)),
                    func_idx == functions.len(),
                    functions.len() <= taken,
                    forall|i: int|
                        0 <= i < modules.len() ==> #[trigger] top_defs(all[i].body@).len() <= usize::MAX,
                    entries_view(function_map@) == index_defs(
                        index_modules(all, mi),
                        mi,
                        path@,
                        functions@,
                        functions.len() as int,
                    ),
                    keys_unique(entries_view(function_map@)),
                decreases body.len(),
            {
                let stmt = body.remove(0);
                assert(body0.take(taken + 1).drop_last() =~= body0.take(taken as int));
                assert(body0.take(taken + 1).last() == stmt);
                match stmt {
                    PyStmt::FunctionDef { def } => {
                        let fid = FunctionId::new(path.clone(), def.name.clone());
                        let ghost before = functions@;
                        proof {
                            lemma_insert_keeps_unique(
                                entries_view(function_map@),
                                fid@,
                                (modules.len(), func_idx),
                            );
                        }
                        map_insert(&mut function_map, fid, (modules.len(), func_idx));
                        functions.push(def);
                        proof {
                            lemma_index_defs_prefix(
                                index_modules(all, mi),
                                mi,
                                path@,
                                before,
                                functions@,
                                before.len() as int,
                            );
                        }
                        func_idx = func_idx + 1;
                    },
                    _ => {},
                }
                taken = taken + 1;
            }
            assert(body0.take(taken as int) =~= body0);
            proof {
                lemma_index_defs_prefix(
                    index_modules(all, mi),
                    mi,
                    path@,
                    functions@,
                    top_defs(body0),
                    functions.len() as int,
                );
            }
            modules.push(ModuleData { path, source, functions });
        }
        proof {
            lemma_index_modules_points(all, all.len() as int);
        }
        let r = ProjectIndex { modules, function_map };
        r
    }

    /// The first entry, in map order, of a function named `id`.
    pub fn find_named(&self, id: &String) -> (r: Option<usize>)
        ensures
            match r {
                Some(i) => first_named(self.map_view(), id@) == Some(i as int),
                None => first_named(self.map_view(), id@) is None,
            },
    {
        let ghost s = self.map_view();
        let mut i: usize = 0;
        while i < self.function_map.len()
            invariant
                0 <= i <= self.function_map.len(),
                s == self.map_view(),
                forall|j: int| 0 <= j < i ==> s[j].0.1 != id@,
            decreases self.function_map.len() - i,
        {
            if self.function_map[i].0.name == *id {
                assert(is_first_named(s, id@, i as int));
                proof {
                    let c = choose|c: int| is_first_named(s, id@, c);
                    assert(c == i);
                }
                return Some(i);
            }
            i = i + 1;
        }
        proof {
            lemma_first_named_none(s, id@);
        }
        None
    }

    /// Finds the entry with key `id`.
    pub fn find_entry(&self, id: &FunctionId) -> (r: Option<usize>)
        ensures
            match r {
                Some(i) => i < self.function_map.len() && self.map_view()[i as int].0 == id@,
                None => forall|i: int|
                    0 <= i < self.function_map.len() ==> self.map_view()[i].0 != id@,
            },
    {
        let mut i: usize = 0;
        while i < self.function_map.len()
            invariant
                0 <= i <= self.function_map.len(),
                forall|j: int| 0 <= j < i ==> self.map_view()[j].0 != id@,
            decreases self.function_map.len() - i,
        {
            if self.function_map[i].0.same_as(id) {
                return Some(i);
            }
            i = i + 1;
        }
        None
    }

    /// The definition stored under `id`, with the source text and path of its
    /// module.
    pub fn get_function(&self, id: &FunctionId) -> (r: Option<(&PyFunctionDef, &String, &String)>)
        requires
            self.wf(),
        ensures
            r is Some <==> seq_map_get(self.map_view(), id@) is Some,
            r matches Some((f, src, p)) ==> {
                let (m, j) = seq_map_get(self.map_view(), id@)->0;
                &&& *f == self.modules@[m as int].functions@[j as int]
                &&& *src == self.modules@[m as int].source
                &&& *p == self.modules@[m as int].path
            },
    {
        match self.find_entry(id) {
            Some(i) => {
                let (m, j) = self.function_map[i].1;
                proof {
                    let c = choose|c: int| 0 <= c < self.map_view().len() && self.map_view()[c].0 == id@;
                    assert(c == i);
                }
                let module = &self.modules[m];
                let func = &module.functions[j];
                Some((func, &module.source, &module.path))
            },
            None => None,
        }
    }
}

} // verus!
