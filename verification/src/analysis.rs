use vstd::prelude::*;

use crate::call_graph::CallGraphBuilder;
use crate::engine::{entry_def, TaintEngine};
use crate::project::{index_modules, source_fits, top_defs, FidView, ProjectIndex};
use crate::pyast::PyModule;
use crate::sinks::{
    find_vulnerabilities, findings_view, function_findings, project_findings, Vulnerability,
    VulnerabilityView,
};

verus! {

/// The findings of the function under one entry of the index built from
/// `mods`.
pub open spec fn entry_findings(mods: Seq<PyModule>, e: (FidView, (usize, usize))) -> Seq<
    VulnerabilityView,
> {
    let (m, f) = e.1;
    function_findings(top_defs(mods[m as int].body@)[f as int], mods[m as int].source@, mods[m as int].path@)
}

/// The findings of the first `n` entries, in order.
pub open spec fn findings_of(mods: Seq<PyModule>, entries: Seq<(FidView, (usize, usize))>, n: int) -> Seq<
    VulnerabilityView,
>
    decreases n,
{
    if n <= 0 {
        Seq::empty()
    } else {
        findings_of(mods, entries, n - 1) + entry_findings(mods, entries[n - 1])
    }
}

proof fn lemma_project_findings_of(p: ProjectIndex, mods: Seq<PyModule>, n: int)
    requires
        p.wf(),
        0 <= n <= p.function_map.len(),
        p.modules.len() == mods.len(),
        forall|i: int|
            0 <= i < mods.len() ==> {
                &&& (#[trigger] p.modules@[i]).path == mods[i].path
                &&& p.modules@[i].source == mods[i].source
                &&& p.modules@[i].functions@ == top_defs(mods[i].body@)
            },
    ensures
        project_findings(p, n) == findings_of(mods, p.map_view(), n),
    decreases n,
{
    if n > 0 {
        lemma_project_findings_of(p, mods, n - 1);
        let (m, f) = p.map_view()[n - 1].1;
        assert(p.modules@[m as int].path == mods[m as int].path);
        assert(entry_def(p, n - 1) == top_defs(mods[m as int].body@)[f as int]);
    }
}

/// Analyses a whole project: indexes its modules, builds the call graph,
/// computes function summaries to a fixed point, and reports the SQL
/// injections of every function in index order.
pub fn analyze_modules(mods: Vec<PyModule>) -> (r: Vec<Vulnerability>)
    requires
        forall|i: int| 0 <= i < mods.len() ==> source_fits(#[trigger] mods@[i].source@),
    ensures
        findings_view(r@) == findings_of(
            mods@,
            index_modules(mods@, mods.len() as int),
            index_modules(mods@, mods.len() as int).len() as int,
        ),
{
    let ghost all = mods@;
    let project = ProjectIndex::from_modules(mods);
    proof {
        lemma_project_findings_of(project, all, project.function_map.len() as int);
    }
    let call_graph = CallGraphBuilder::build(&project);
    let mut engine = TaintEngine::new(project, call_graph);
    engine.run();
    find_vulnerabilities(&engine)
}

} // verus!
