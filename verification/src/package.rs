//! Per-package decisions: whether a package can be checked, under which
//! library name, and with which features.
use vstd::prelude::*;
use vstd::string::StringExecFns;
use crate::model::{Metadata, Package, ResolveNode, Target, TargetKind};
use crate::text::texts;

verus! {

/// Why a package was not checked.
#[derive(Clone, Copy, Debug, PartialEq, Eq, Structural)]
pub enum SkipReason {
    /// The package has no library target (a binary-only crate, say).
    NoLibTarget,
    /// The package is a procedural-macro crate.
    ProcMacro,
}

/// The words in which a skip reason is reported.
pub open spec fn skip_reason_text(r: SkipReason) -> Seq<char> {
    match r {
        SkipReason::NoLibTarget => "package has no lib target"@,
        SkipReason::ProcMacro => "package is a proc-macro crate"@,
    }
}

impl SkipReason {
    /// The words in which the reason is reported.
    pub fn text(&self) -> (r: String)
        ensures
            r@ == skip_reason_text(*self),
    {
        match self {
            SkipReason::NoLibTarget => String::from_str("package has no lib target"),
            SkipReason::ProcMacro => String::from_str("package is a proc-macro crate"),
        }
    }
}

/// Whether a list of target kinds holds `k`.
pub fn has_kind(kinds: &Vec<TargetKind>, k: TargetKind) -> (r: bool)
    ensures
        r == kinds@.contains(k),
{
    let n = kinds.len();
    for i in 0..n
        invariant
            n == kinds@.len(),
            forall|j: int| 0 <= j < i ==> kinds@[j] != k,
    {
        if kinds[i] == k {
            assert(kinds@[i as int] == k);
            return true;
        }
    }
    false
}

/// Some target of the package is a procedural macro.
pub open spec fn is_proc_macro(p: Package) -> bool {
    exists|i: int| 0 <= i < p.targets@.len() && (#[trigger] p.targets@[i]).kinds@.contains(TargetKind::ProcMacro)
}

/// The names of the library targets, in target order.
pub open spec fn lib_target_names(ts: Seq<Target>) -> Seq<Seq<char>>
    decreases ts.len(),
{
    if ts.len() == 0 {
        Seq::empty()
    } else if ts.last().kinds@.contains(TargetKind::Lib) {
        lib_target_names(ts.drop_last()).push(ts.last().name@)
    } else {
        lib_target_names(ts.drop_last())
    }
}

/// The library name of a package: the name of its library target when it
/// has exactly one.
pub open spec fn lib_name(p: Package) -> Option<Seq<char>> {
    let names = lib_target_names(p.targets@);
    if names.len() == 1 {
        Some(names[0])
    } else {
        None
    }
}

/// The target at index `i` is a library target.
pub open spec fn is_lib_target(ts: Seq<Target>, i: int) -> bool {
    0 <= i < ts.len() && ts[i].kinds@.contains(TargetKind::Lib)
}

proof fn lemma_lib_target_names(ts: Seq<Target>)
    ensures
        (forall|i: int| !is_lib_target(ts, i)) ==> lib_target_names(ts).len() == 0,
        forall|i: int, j: int| is_lib_target(ts, i) && is_lib_target(ts, j) && i != j
            ==> lib_target_names(ts).len() >= 2,
        forall|i: int| is_lib_target(ts, i) ==> lib_target_names(ts).len() >= 1,
        forall|i: int| is_lib_target(ts, i) && (forall|j: int| is_lib_target(ts, j) ==> j == i)
            ==> lib_target_names(ts) == seq![ts[i].name@],
    decreases ts.len(),
{
    if ts.len() > 0 {
        let init = ts.drop_last();
        let l = ts.len() - 1;
        lemma_lib_target_names(init);
        assert forall|i: int| 0 <= i < l implies (is_lib_target(ts, i) <==> is_lib_target(init, i)) by {
            assert(ts[i] == init[i]);
        }
        assert forall|i: int| is_lib_target(ts, i) && (forall|j: int| is_lib_target(ts, j) ==> j == i)
            implies lib_target_names(ts) == seq![ts[i].name@] by {
            if i == l {
                assert forall|j: int| !is_lib_target(init, j) by {
                    if is_lib_target(init, j) {
                        assert(is_lib_target(ts, j));
                    }
                }
                assert(lib_target_names(ts) =~= seq![ts[i].name@]);
            } else {
                assert(is_lib_target(init, i));
                assert forall|j: int| is_lib_target(init, j) implies j == i by {
                    assert(is_lib_target(ts, j));
                }
                assert(!is_lib_target(ts, l));
                assert(ts[i] == init[i]);
            }
        }
        assert forall|i: int, j: int| is_lib_target(ts, i) && is_lib_target(ts, j) && i != j
            implies lib_target_names(ts).len() >= 2 by {
            if i == l {
                assert(is_lib_target(init, j));
            } else if j == l {
                assert(is_lib_target(init, i));
            } else {
                assert(is_lib_target(init, i));
                assert(is_lib_target(init, j));
            }
        }
        if forall|i: int| !is_lib_target(ts, i) {
            assert(!is_lib_target(ts, l));
            assert forall|i: int| !is_lib_target(init, i) by {
                if is_lib_target(init, i) {
                    assert(is_lib_target(ts, i));
                }
            }
        }
        assert forall|i: int| is_lib_target(ts, i) implies lib_target_names(ts).len() >= 1 by {
            if i != l {
                assert(is_lib_target(init, i));
            }
        }
    }
}

/// A package's library name depends only on its library targets: when
/// exactly one target is a library, the name is that target's name, whatever
/// other targets (binaries, tests, examples) there are and wherever they
/// stand; with no library target, or two, there is none.
pub proof fn law_lib_name_is_the_single_library(p: Package)
    ensures
        forall|i: int|
            0 <= i < p.targets@.len() && (#[trigger] p.targets@[i]).kinds@.contains(TargetKind::Lib)
                && (forall|j: int| 0 <= j < p.targets@.len() && (#[trigger] p.targets@[j]).kinds@.contains(TargetKind::Lib) ==> j == i)
                ==> lib_name(p) == Some(p.targets@[i].name@),
        (forall|i: int| 0 <= i < p.targets@.len() ==> !(#[trigger] p.targets@[i]).kinds@.contains(TargetKind::Lib))
            ==> lib_name(p) is None,
        forall|i: int, j: int|
            0 <= i < p.targets@.len() && 0 <= j < p.targets@.len() && i != j
                && (#[trigger] p.targets@[i]).kinds@.contains(TargetKind::Lib)
                && (#[trigger] p.targets@[j]).kinds@.contains(TargetKind::Lib) ==> lib_name(p) is None,
{
    let ts = p.targets@;
    lemma_lib_target_names(ts);
    assert forall|i: int|
        0 <= i < ts.len() && (#[trigger] ts[i]).kinds@.contains(TargetKind::Lib)
            && (forall|j: int| 0 <= j < ts.len() && (#[trigger] ts[j]).kinds@.contains(TargetKind::Lib) ==> j == i)
            implies lib_name(p) == Some(ts[i].name@) by {
        assert(is_lib_target(ts, i));
        assert forall|j: int| is_lib_target(ts, j) implies j == i by {
            assert(ts[j].kinds@.contains(TargetKind::Lib));
        }
        assert(lib_target_names(ts) == seq![ts[i].name@]);
    }
    if forall|i: int| 0 <= i < ts.len() ==> !(#[trigger] ts[i]).kinds@.contains(TargetKind::Lib) {
        assert forall|i: int| !is_lib_target(ts, i) by {
            if 0 <= i < ts.len() {
                assert(!ts[i].kinds@.contains(TargetKind::Lib));
            }
        }
    }
    assert forall|i: int, j: int|
        0 <= i < ts.len() && 0 <= j < ts.len() && i != j
            && (#[trigger] ts[i]).kinds@.contains(TargetKind::Lib)
            && (#[trigger] ts[j]).kinds@.contains(TargetKind::Lib) implies lib_name(p) is None by {
        assert(is_lib_target(ts, i) && is_lib_target(ts, j));
    }
}

/// The name of the package's library target, when it has exactly one; none
/// when it has no library target or several.
pub fn resolve_lib_name_for_package(p: &Package) -> (r: Option<String>)
    ensures
        match r {
            Some(n) => lib_name(*p) == Some(n@),
            None => lib_name(*p) is None,
        },
{
    let n = p.targets.len();
    let mut count: usize = 0;
    let mut first: Option<usize> = None;
    for i in 0..n
        invariant
            n == p.targets@.len(),
            count == lib_target_names(p.targets@.take(i as int)).len(),
            count <= i,
            count > 0 ==> (first matches Some(f) && f < n
                && lib_target_names(p.targets@.take(i as int))[0] == p.targets@[f as int].name@),
    {
        assert(p.targets@.take(i + 1).drop_last() =~= p.targets@.take(i as int));
        if has_kind(&p.targets[i].kinds, TargetKind::Lib) {
            if count == 0 {
                first = Some(i);
            }
            count = count + 1;
        }
    }
    assert(p.targets@.take(n as int) =~= p.targets@);
    if count == 1 {
        match first {
            Some(f) => Some(p.targets[f].name.clone()),
            None => None,
        }
    } else {
        None
    }
}

/// What is to be done with a package.
#[derive(Clone, Debug, PartialEq, Eq)]
pub enum CheckPlan {
    /// The package is not checked, for this reason.
    Skip(SkipReason),
    /// The package's library, under this name, is documented and examined.
    Check(String),
}

/// Decides whether a package can be checked: a procedural-macro package is
/// skipped, so is one without exactly one library target; any other is
/// checked under its library's name.
pub fn check_package(p: &Package) -> (r: CheckPlan)
    ensures
        is_proc_macro(*p) ==> r == CheckPlan::Skip(SkipReason::ProcMacro),
        !is_proc_macro(*p) ==> match r {
            CheckPlan::Skip(reason) => reason == SkipReason::NoLibTarget && lib_name(*p) is None,
            CheckPlan::Check(name) => lib_name(*p) == Some(name@),
        },
{
    let n = p.targets.len();
    for i in 0..n
        invariant
            n == p.targets@.len(),
            forall|j: int| 0 <= j < i ==> !(#[trigger] p.targets@[j]).kinds@.contains(TargetKind::ProcMacro),
    {
        if has_kind(&p.targets[i].kinds, TargetKind::ProcMacro) {
            return CheckPlan::Skip(SkipReason::ProcMacro);
        }
    }
    match resolve_lib_name_for_package(p) {
        Some(name) => CheckPlan::Check(name),
        None => CheckPlan::Skip(SkipReason::NoLibTarget),
    }
}

/// `i` is the first resolve node that stands for the package `id`.
pub open spec fn is_first_node(nodes: Seq<ResolveNode>, id: Seq<char>, i: int) -> bool {
    &&& 0 <= i < nodes.len()
    &&& nodes[i].id@ == id
    &&& forall|j: int| 0 <= j < i ==> (#[trigger] nodes[j]).id@ != id
}

/// The message when cargo's output holds no resolved graph.
pub open spec fn no_resolve_message() -> Seq<char> {
    "Cargo metadata didn't have resolved nodes"@
}

/// The message when the resolved graph holds no node for a package.
pub open spec fn missing_node_message(name: Seq<char>) -> Seq<char> {
    "Failed to find node for package "@ + name
}

/// The features that cargo resolved for a package, or the message of the
/// failure: those of the first node of the resolved graph that stands for it.
pub open spec fn resolved_features(m: Metadata, p: Package) -> Result<Seq<Seq<char>>, Seq<char>> {
    match m.resolve {
        Some(nodes) => if exists|i: int| is_first_node(nodes@, p.id@, i) {
            Ok(texts(nodes@[choose|i: int| is_first_node(nodes@, p.id@, i)].features@))
        } else {
            Err(missing_node_message(p.name@))
        },
        None => Err(no_resolve_message()),
    }
}

proof fn lemma_first_node_unique(nodes: Seq<ResolveNode>, id: Seq<char>, i: int, j: int)
    requires
        is_first_node(nodes, id, i),
        is_first_node(nodes, id, j),
    ensures
        i == j,
{
    if i < j {
        assert(nodes[i].id@ != id);
    } else if j < i {
        assert(nodes[j].id@ != id);
    }
}

/// The features that cargo resolved for a package: those of the first node
/// of the resolved graph that stands for it. Fails when the graph was not
/// resolved, or holds no node for the package.
pub fn resolve_features_for_package(m: &Metadata, p: &Package) -> (r: Result<Vec<String>, String>)
    ensures
        match r {
            Ok(fs) => resolved_features(*m, *p) == Ok::<Seq<Seq<char>>, Seq<char>>(texts(fs@)),
            Err(e) => resolved_features(*m, *p) == Err::<Seq<Seq<char>>, Seq<char>>(e@),
        },
{
    match &m.resolve {
        None => Err(String::from_str("Cargo metadata didn't have resolved nodes")),
        Some(nodes) => {
            let n = nodes.len();
            for i in 0..n
                invariant
                    n == nodes@.len(),
                    m.resolve == Some(*nodes),
                    forall|j: int| 0 <= j < i ==> (#[trigger] nodes@[j]).id@ != p.id@,
            {
                if nodes[i].id == p.id {
                    let fs = nodes[i].features.clone();
                    assert(texts(fs@) =~= texts(nodes@[i as int].features@));
                    assert(is_first_node(nodes@, p.id@, i as int));
                    assert(texts(fs@) == texts(nodes@[i as int].features@));
                    assert(m.resolve->0@ == nodes@);
                    proof {
                        let k = choose|k: int| is_first_node(nodes@, p.id@, k);
                        lemma_first_node_unique(nodes@, p.id@, i as int, k);
                    }
                    return Ok(fs);
                }
            }
            let mut msg = String::from_str("Failed to find node for package ");
            msg.append(p.name.as_str());
            Err(msg)
        },
    }
}

} // verus!
