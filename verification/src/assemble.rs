//! The module assembler: translates every item of the surface, arranges the
//! results in dependency order, merges the deduplicated includes, and renders
//! the two output bodies.  An item whose translation failed becomes a comment
//! at its place; items that cannot be ordered get cycle comments at the end.

use vstd::prelude::*;
use vstd::string::StringExecFns;

use crate::error::Error;
use crate::function::{
    fn_cc_text, fn_defs_upto, fn_includes_upto, fn_needs_wrapper, fn_rs_text, TranslatedItem,
};
use crate::item::{
    aggregate_cc_item_text, format_unsupported_item, item_err_text, item_skipped,
    item_translated, translate_item, unsupported_comment_text,
};
use crate::model::{Item, ItemKind, ModuleSurface, PanicStrategy};
use crate::names::{cc_ident_err, cc_ident_ok, format_cc_ident};
use crate::order::{order_respects_deps, toposort, Dependency};
use crate::snippet::{includes_sorted, CcInclude, CcPrerequisites};

verus! {

/// The two output bodies of one translation run.
#[derive(Debug)]
pub struct GeneratedBindings {
    /// The C++ declaration body.
    pub h_body: String,
    /// The Rust shim body.
    pub rs_body: String,
}

/// Whether the item at position `i` appears in the output at all: it is part
/// of the public surface and is not a pure namespacing container.
pub open spec fn item_in_output(m: ModuleSurface, i: int) -> bool {
    &&& 0 <= i < m.items.len()
    &&& !item_skipped(m.items@[i])
}

/// The C++ text produced for the item at position `i`: its binding when the
/// translation succeeds, and a comment explaining the failure otherwise.
pub open spec fn item_result_text_cc(m: ModuleSurface, i: int) -> Seq<char> {
    let it = m.items@[i];
    if item_translated(it, m.aggregates@) {
        match it.kind {
            ItemKind::Fn(f) => fn_cc_text(it, f, m.aggregates@),
            ItemKind::Aggregate { index } => {
                let a = m.aggregates@[index as int];
                match a.layout {
                    Ok(l) => aggregate_cc_item_text(it, a, l.size as nat, l.align as nat),
                    Err(_) => Seq::<char>::empty(),
                }
            },
            _ => Seq::<char>::empty(),
        }
    } else {
        unsupported_comment_text(it, item_err_text(it, m.aggregates@))
    }
}

/// The Rust text produced for the item at position `i`.
pub open spec fn item_result_text_rs(m: ModuleSurface, i: int) -> Seq<char> {
    let it = m.items@[i];
    if item_translated(it, m.aggregates@) {
        match it.kind {
            ItemKind::Fn(f) => fn_rs_text(it, f, m.aggregates@),
            ItemKind::Aggregate { index } => {
                let a = m.aggregates@[index as int];
                match a.layout {
                    Ok(l) => crate::aggregate::aggregate_rs_assertions_text(
                        crate::names::qualified_text(a.name),
                        l.size as nat,
                        l.align as nat,
                    ),
                    Err(_) => Seq::<char>::empty(),
                }
            },
            _ => Seq::<char>::empty(),
        }
    } else {
        Seq::<char>::empty()
    }
}

/// The includes that the item's C++ text depends on.
pub open spec fn item_includes_set(m: ModuleSurface, i: int) -> Set<CcInclude> {
    let it = m.items@[i];
    if item_translated(it, m.aggregates@) {
        match it.kind {
            ItemKind::Fn(f) => fn_includes_upto(
                f,
                m.aggregates@,
                fn_needs_wrapper(it, f),
                f.sig.inputs.len() as int,
            ),
            _ => Set::<CcInclude>::empty(),
        }
    } else {
        Set::<CcInclude>::empty()
    }
}

/// The earlier declarations that the item's C++ text depends on.
pub open spec fn item_defs_set(m: ModuleSurface, i: int) -> Set<usize> {
    let it = m.items@[i];
    if item_translated(it, m.aggregates@) {
        match it.kind {
            ItemKind::Fn(f) => fn_defs_upto(f, m.aggregates@, f.sig.inputs.len() as int),
            _ => Set::<usize>::empty(),
        }
    } else {
        Set::<usize>::empty()
    }
}

/// Whether every segment of a module path is usable as a C++ namespace name.
pub open spec fn ns_path_ok(path: Seq<Seq<char>>) -> bool {
    forall|i: int| 0 <= i < path.len() ==> cc_ident_ok(#[trigger] path[i])
}

/// The first path segment that the identifier check rejects.
pub open spec fn ns_first_bad(path: Seq<Seq<char>>) -> Seq<char> {
    path[choose|i: int|
        0 <= i < path.len() && !cc_ident_ok(#[trigger] path[i]) && (forall|j: int|
            0 <= j < i ==> cc_ident_ok(#[trigger] path[j]))]
}

/// The first `k` path segments joined with `::`.
pub open spec fn ns_joined_upto(path: Seq<Seq<char>>, k: int) -> Seq<char>
    decreases k,
{
    if k <= 0 {
        Seq::<char>::empty()
    } else if k == 1 {
        path[0]
    } else {
        ns_joined_upto(path, k - 1) + "::"@ + path[k - 1]
    }
}

/// The item's text placed at its position in the crate's namespace: wrapped
/// in its module's namespace when it has one, replaced by a comment when the
/// module's name cannot be used in C++.
pub open spec fn placed_item_text(m: ModuleSurface, i: int) -> Seq<char> {
    let path = m.items@[i].qname.mod_path.deep_view();
    let inner = item_result_text_cc(m, i);
    if path.len() == 0 {
        inner
    } else if ns_path_ok(path) {
        "namespace "@ + ns_joined_upto(path, path.len() as int) + " {\n"@ + inner + "}\n"@
    } else {
        "// Failed to format namespace name `"@ + ns_first_bad(path) + "`"@ + ": "@ + cc_ident_err(
            ns_first_bad(path),
        ) + "\n"@
    }
}

/// The C++ texts of the first `k` ordered items, concatenated.
pub open spec fn placed_concat(m: ModuleSurface, ordered: Seq<usize>, k: int) -> Seq<char>
    decreases k,
{
    if k <= 0 {
        Seq::<char>::empty()
    } else {
        placed_concat(m, ordered, k - 1) + placed_item_text(m, ordered[k - 1] as int)
    }
}

/// The Rust texts of the first `k` ordered items, concatenated.
pub open spec fn rs_concat(m: ModuleSurface, ordered: Seq<usize>, k: int) -> Seq<char>
    decreases k,
{
    if k <= 0 {
        Seq::<char>::empty()
    } else {
        rs_concat(m, ordered, k - 1) + item_result_text_rs(m, ordered[k - 1] as int)
    }
}

/// The cycle comments for the first `k` failed items, concatenated.
pub open spec fn failed_concat(m: ModuleSurface, failed: Seq<usize>, k: int) -> Seq<char>
    decreases k,
{
    if k <= 0 {
        Seq::<char>::empty()
    } else {
        failed_concat(m, failed, k - 1) + unsupported_comment_text(
            m.items@[failed[k - 1] as int],
            "Definition dependency cycle"@,
        )
    }
}

/// The includes that the first `k` ordered items need, together.
pub open spec fn includes_union(m: ModuleSurface, ordered: Seq<usize>, k: int) -> Set<CcInclude>
    decreases k,
{
    if k <= 0 {
        Set::<CcInclude>::empty()
    } else {
        includes_union(m, ordered, k - 1).union(item_includes_set(m, ordered[k - 1] as int))
    }
}

/// The canonical emission order of a set of includes.
pub open spec fn include_seq_of_set(s: Set<CcInclude>) -> Seq<CcInclude> {
    if s.contains(CcInclude::Cstdint) && s.contains(CcInclude::Utility) {
        seq![CcInclude::Cstdint, CcInclude::Utility]
    } else if s.contains(CcInclude::Cstdint) {
        seq![CcInclude::Cstdint]
    } else if s.contains(CcInclude::Utility) {
        seq![CcInclude::Utility]
    } else {
        Seq::<CcInclude>::empty()
    }
}

/// The `#include` line of one include.
pub open spec fn include_line(i: CcInclude) -> Seq<char> {
    match i {
        CcInclude::Cstdint => "#include <cstdint>\n"@,
        CcInclude::Utility => "#include <utility>\n"@,
    }
}

/// The first `k` include lines, concatenated.
pub open spec fn includes_text_upto(s: Seq<CcInclude>, k: int) -> Seq<char>
    decreases k,
{
    if k <= 0 {
        Seq::<char>::empty()
    } else {
        includes_text_upto(s, k - 1) + include_line(s[k - 1])
    }
}

/// The whole C++ declaration body of one run, given the order the orderer
/// chose: the include lines, then one namespace for the crate holding the
/// ordered items and, after them, the cycle comments.
pub open spec fn h_body_text(
    m: ModuleSurface,
    ordered: Seq<usize>,
    failed: Seq<usize>,
) -> Seq<char> {
    let incs = include_seq_of_set(includes_union(m, ordered, ordered.len() as int));
    includes_text_upto(incs, incs.len() as int) + "\n"@ + "namespace "@ + m.name@ + " {\n"@
        + placed_concat(m, ordered, ordered.len() as int) + failed_concat(
        m,
        failed,
        failed.len() as int,
    ) + "}\n"@
}

/// The whole Rust shim body of one run.
pub open spec fn rs_body_text(m: ModuleSurface, ordered: Seq<usize>) -> Seq<char> {
    rs_concat(m, ordered, ordered.len() as int)
}

/// What the assembler guarantees about the order it emits: `ordered` and
/// `failed` partition the items that appear in the output; every declaration
/// an ordered item depends on stands strictly earlier in the order; an item
/// that depends on a failed item fails with it; and when no item depends on
/// any other, the source order is kept unchanged.
pub open spec fn emission_order_ok(
    m: ModuleSurface,
    ordered: Seq<usize>,
    failed: Seq<usize>,
) -> bool {
    &&& ordered.no_duplicates()
    &&& failed.no_duplicates()
    &&& forall|x: usize|
        #![trigger ordered.contains(x)]
        #![trigger failed.contains(x)]
        (ordered.contains(x) || failed.contains(x)) <==> item_in_output(m, x as int)
    &&& forall|x: usize| !(#[trigger] ordered.contains(x) && failed.contains(x))
    &&& forall|pos: int, d: usize|
        #![trigger item_defs_set(m, ordered[pos] as int).contains(d)]
        0 <= pos < ordered.len() && item_defs_set(m, ordered[pos] as int).contains(d)
            && item_in_output(m, d as int) ==> exists|j: int| 0 <= j < pos && ordered[j] == d
    &&& forall|x: usize, d: usize|
        #![trigger failed.contains(x), item_defs_set(m, x as int).contains(d)]
        failed.contains(d) && item_in_output(m, x as int) && item_defs_set(m, x as int).contains(
            d,
        ) && item_in_output(m, d as int) ==> failed.contains(x)
    &&& ((forall|x: usize, d: usize|
        #![trigger item_defs_set(m, x as int).contains(d)]
        item_in_output(m, x as int) && item_defs_set(m, x as int).contains(d) ==> !item_in_output(
            m,
            d as int,
        )) ==> (failed == Seq::<usize>::empty() && (forall|p1: int, p2: int|
        0 <= p1 < p2 < ordered.len() ==> #[trigger] ordered[p1] < #[trigger] ordered[p2])))
}


/// A strictly sorted include list is exactly the canonical order of its
/// contents.
proof fn lemma_includes_canonical(s: Seq<CcInclude>)
    requires
        includes_sorted(s),
    ensures
        s == include_seq_of_set(s.to_set()),
{
    if s.len() == 0 {
        assert(forall|y: CcInclude| !s.contains(y));
        assert(s =~= include_seq_of_set(s.to_set()));
    } else if s.len() == 1 {
        assert(s.contains(s[0]));
        assert forall|y: CcInclude| #[trigger] s.to_set().contains(y) implies y == s[0] by {
            let k = choose|k: int| 0 <= k < s.len() && s[k] == y;
        }
        match s[0] {
            CcInclude::Cstdint => {
                assert(!s.to_set().contains(CcInclude::Utility));
                assert(s =~= include_seq_of_set(s.to_set()));
            },
            CcInclude::Utility => {
                assert(!s.to_set().contains(CcInclude::Cstdint));
                assert(s =~= include_seq_of_set(s.to_set()));
            },
        }
    } else if s.len() == 2 {
        assert(crate::snippet::include_rank(s[0]) < crate::snippet::include_rank(s[1]));
        assert(s[0] == CcInclude::Cstdint && s[1] == CcInclude::Utility) by {
            match s[0] {
                CcInclude::Cstdint => {},
                CcInclude::Utility => {},
            }
            match s[1] {
                CcInclude::Cstdint => {},
                CcInclude::Utility => {},
            }
        }
        assert(s.contains(s[0]));
        assert(s.contains(s[1]));
        assert(s =~= include_seq_of_set(s.to_set()));
    } else {
        assert(crate::snippet::include_rank(s[0]) < crate::snippet::include_rank(s[1]));
        assert(crate::snippet::include_rank(s[1]) < crate::snippet::include_rank(s[2]));
        assert(false) by {
            match s[0] {
                CcInclude::Cstdint => {},
                CcInclude::Utility => {},
            }
            match s[1] {
                CcInclude::Cstdint => {},
                CcInclude::Utility => {},
            }
            match s[2] {
                CcInclude::Cstdint => {},
                CcInclude::Utility => {},
            }
        }
    }
}

/// Renders the include lines of a sorted include list.
fn render_includes(incs: &Vec<CcInclude>) -> (r: String)
    ensures
        r@ == includes_text_upto(incs@, incs@.len() as int),
{
    let mut out = String::new();
    let mut i: usize = 0;
    while i < incs.len()
        invariant
            i <= incs@.len(),
            out@ == includes_text_upto(incs@, i as int),
        decreases incs@.len() - i,
    {
        match incs[i] {
            CcInclude::Cstdint => out.append("#include <cstdint>\n"),
            CcInclude::Utility => out.append("#include <utility>\n"),
        }
        i = i + 1;
    }
    out
}

/// Places one item's text at its position in the crate's namespace: returns
/// it unchanged for a top-level item, wraps it in the module's namespace, or
/// replaces it by a comment when the module's name cannot be used in C++.
fn wrap_in_namespace(it: &Item, inner: String) -> (r: String)
    ensures
        r@ == ({
            let path = it.qname.mod_path.deep_view();
            if path.len() == 0 {
                inner@
            } else if ns_path_ok(path) {
                "namespace "@ + ns_joined_upto(path, path.len() as int) + " {\n"@ + inner@
                    + "}\n"@
            } else {
                "// Failed to format namespace name `"@ + ns_first_bad(path) + "`"@ + ": "@
                    + cc_ident_err(ns_first_bad(path)) + "\n"@
            }
        }),
{
    let ghost path = it.qname.mod_path.deep_view();
    if it.qname.mod_path.len() == 0 {
        return inner;
    }
    let mut joined = String::new();
    let mut i: usize = 0;
    while i < it.qname.mod_path.len()
        invariant
            path == it.qname.mod_path.deep_view(),
            i <= it.qname.mod_path.len(),
            forall|j: int| 0 <= j < i ==> cc_ident_ok(#[trigger] path[j]),
            joined@ == ns_joined_upto(path, i as int),
        decreases it.qname.mod_path.len() - i,
    {
        let seg = match format_cc_ident(it.qname.mod_path[i].as_str()) {
            Ok(seg) => seg,
            Err(e) => {
                proof {
                    let bad = i as int;
                    let k = choose|k: int|
                        0 <= k < path.len() && !cc_ident_ok(#[trigger] path[k]) && (forall|j: int|
                            0 <= j < k ==> cc_ident_ok(#[trigger] path[j]));
                    assert(!cc_ident_ok(path[bad]));
                    if k < bad {
                        assert(cc_ident_ok(path[k]));
                    }
                    if k > bad {
                        assert(cc_ident_ok(path[bad]));
                    }
                    assert(k == bad);
                    assert(ns_first_bad(path) == path[bad]);
                }
                let mut out = String::from_str("// Failed to format namespace name `");
                out.append(it.qname.mod_path[i].as_str());
                out.append("`");
                out.append(": ");
                out.append(e.message().as_str());
                out.append("\n");
                return out;
            },
        };
        if i > 0 {
            joined.append("::");
        }
        joined.append(seg.as_str());
        proof {
            assert(joined@ =~= ns_joined_upto(path, i + 1));
        }
        i = i + 1;
    }
    let mut out = String::from_str("namespace ");
    out.append(joined.as_str());
    out.append(" {\n");
    out.append(inner.as_str());
    out.append("}\n");
    proof {
        assert(out@ =~= "namespace "@ + ns_joined_upto(path, path.len() as int) + " {\n"@
            + inner@ + "}\n"@);
    }
    out
}

/// Translates every public item of the surface, arranges the translated
/// snippets so that declarations precede their uses, and renders the two
/// output bodies.  The run fails only when the crate's own name cannot be
/// used as the top-level C++ namespace; every per-item failure becomes a
/// comment inside the output instead.
pub fn format_crate(m: &ModuleSurface) -> (r: Result<GeneratedBindings, Error>)
    requires
        crate::model::surface_wf(*m),
    ensures
        r is Ok <==> cc_ident_ok(m.name@),
        r matches Err(e) ==> e@ == cc_ident_err(m.name@),
        r matches Ok(gb) ==> exists|ordered: Seq<usize>, failed: Seq<usize>|
            #![auto]
            {
                &&& emission_order_ok(*m, ordered, failed)
                &&& gb.h_body@ == h_body_text(*m, ordered, failed)
                &&& gb.rs_body@ == rs_body_text(*m, ordered)
            },
{
    let crate_name = match format_cc_ident(m.name.as_str()) {
        Ok(n) => n,
        Err(e) => {
            return Err(e);
        },
    };

    let n_items = m.items.len();
    let mut records: Vec<Option<TranslatedItem>> = Vec::new();
    let mut i: usize = 0;
    while i < n_items
        invariant
            crate::model::surface_wf(*m),
            n_items == m.items.len(),
            i <= n_items,
            records@.len() == i,
            forall|k: int|
                0 <= k < i ==> ((#[trigger] records@[k]) is Some <==> item_in_output(*m, k)),
            forall|k: int|
                0 <= k < i ==> ((#[trigger] records@[k]) matches Some(ti) ==> {
                    &&& ti.cc.tokens@ == item_result_text_cc(*m, k)
                    &&& ti.rs@ == item_result_text_rs(*m, k)
                    &&& ti.cc.prereqs.wf()
                    &&& ti.cc.prereqs.includes_set() == item_includes_set(*m, k)
                    &&& ti.cc.prereqs.defs_set() == item_defs_set(*m, k)
                }),
        decreases n_items - i,
    {
        let it = &m.items[i];
        proof {
            assert(crate::model::item_wf(m.items@[i as int], m.aggregates@.len() as nat));
        }
        match translate_item(it, &m.aggregates) {
            Ok(Some(ti)) => records.push(Some(ti)),
            Ok(None) => records.push(None),
            Err(e) => {
                let ti = format_unsupported_item(it, e);
                proof {
                    crate::snippet::lemma_empty_to_set::<CcInclude>();
                    crate::snippet::lemma_empty_to_set::<usize>();
                }
                records.push(Some(ti));
            },
        }
        i = i + 1;
    }

    let mut ids: Vec<usize> = Vec::new();
    let mut deps: Vec<Dependency> = Vec::new();
    let mut k: usize = 0;
    while k < n_items
        invariant
            crate::model::surface_wf(*m),
            n_items == m.items.len(),
            records@.len() == n_items,
            k <= n_items,
            forall|t: int|
                0 <= t < n_items ==> ((#[trigger] records@[t]) is Some <==> item_in_output(*m, t)),
            forall|t: int|
                0 <= t < n_items ==> ((#[trigger] records@[t]) matches Some(ti) ==> {
                    &&& ti.cc.tokens@ == item_result_text_cc(*m, t)
                    &&& ti.rs@ == item_result_text_rs(*m, t)
                    &&& ti.cc.prereqs.wf()
                    &&& ti.cc.prereqs.includes_set() == item_includes_set(*m, t)
                    &&& ti.cc.prereqs.defs_set() == item_defs_set(*m, t)
                }),
            crate::snippet::defs_sorted(ids@),
            forall|x: usize| #[trigger]
                ids@.contains(x) <==> (x < k && item_in_output(*m, x as int)),
            forall|j: int| 0 <= j < ids@.len() ==> (#[trigger] ids@[j]) < k,
            forall|a: int|
                0 <= a < deps@.len() ==> {
                    let dep = #[trigger] deps@[a];
                    &&& item_in_output(*m, dep.successor as int)
                    &&& item_in_output(*m, dep.predecessor as int)
                    &&& item_defs_set(*m, dep.successor as int).contains(dep.predecessor)
                },
            forall|x: usize, d: usize|
                #![trigger item_defs_set(*m, x as int).contains(d)]
                x < k && item_in_output(*m, x as int) && item_defs_set(*m, x as int).contains(d)
                    && item_in_output(*m, d as int) ==> deps@.contains(
                    Dependency { predecessor: d, successor: x },
                ),
        decreases n_items - k,
    {
        let is_out = records[k].is_some();
        if is_out {
            let ghost ids_before = ids@;
            ids.push(k);
            proof {
                crate::order::lemma_push_contains(ids_before, k);
                assert(forall|j: int|
                    0 <= j < ids_before.len() ==> #[trigger] ids@[j] == ids_before[j]);
                assert(ids@[ids_before.len() as int] == k);
                assert(crate::snippet::defs_sorted(ids@)) by {
                    assert(forall|a: int, b: int|
                        0 <= a < b < ids@.len() ==> #[trigger] ids@[a] < #[trigger] ids@[b]);
                }
            }
            let defs_list: Vec<usize> = match &records[k] {
                Some(ti) => ti.cc.prereqs.defs.clone(),
                None => {
                    proof {
                        assert(false);
                    }
                    Vec::new()
                },
            };
            let n_defs = defs_list.len();
            let mut q: usize = 0;
            while q < n_defs
                invariant
                    n_items == m.items.len(),
                    records@.len() == n_items,
                    k < n_items,
                    q <= n_defs,
                    n_defs == defs_list@.len(),
                    item_in_output(*m, k as int),
                    defs_list@.to_set() == item_defs_set(*m, k as int),
                    forall|t: int|
                        0 <= t < n_items ==> ((#[trigger] records@[t]) is Some <==> item_in_output(
                            *m,
                            t,
                        )),
                    forall|a: int|
                        0 <= a < deps@.len() ==> {
                            let dep = #[trigger] deps@[a];
                            &&& item_in_output(*m, dep.successor as int)
                            &&& item_in_output(*m, dep.predecessor as int)
                            &&& item_defs_set(*m, dep.successor as int).contains(dep.predecessor)
                        },
                    forall|x: usize, d: usize|
                        #![trigger item_defs_set(*m, x as int).contains(d)]
                        x < k && item_in_output(*m, x as int) && item_defs_set(
                            *m,
                            x as int,
                        ).contains(d) && item_in_output(*m, d as int) ==> deps@.contains(
                            Dependency { predecessor: d, successor: x },
                        ),
                    forall|j: int|
                        0 <= j < q && item_in_output(*m, (#[trigger] defs_list@[j]) as int)
                            ==> deps@.contains(
                            Dependency { predecessor: defs_list@[j], successor: k },
                        ),
                decreases n_defs - q,
            {
                let d = defs_list[q];
                let pred_out = if d < n_items {
                    records[d].is_some()
                } else {
                    false
                };
                if pred_out {
                    let ghost deps_before = deps@;
                    deps.push(Dependency { predecessor: d, successor: k });
                    proof {
                        assert(defs_list@.contains(defs_list@[q as int]));
                        assert(item_defs_set(*m, k as int).contains(d));
                        assert(forall|a: int|
                            0 <= a < deps_before.len() ==> #[trigger] deps@[a] == deps_before[a]);
                        assert(deps@[deps_before.len() as int] == Dependency {
                            predecessor: d,
                            successor: k,
                        });
                        assert forall|y: Dependency| #[trigger]
                            deps@.contains(y) implies (deps_before.contains(y) || y == Dependency {
                            predecessor: d,
                            successor: k,
                        }) by {
                            let w = choose|w: int| 0 <= w < deps@.len() && deps@[w] == y;
                            if w < deps_before.len() {
                                assert(deps_before[w] == y);
                            }
                        }
                        assert forall|y: Dependency| #[trigger]
                            deps_before.contains(y) implies deps@.contains(y) by {
                            let v = choose|v: int|
                                0 <= v < deps_before.len() && deps_before[v] == y;
                            assert(deps@[v] == y);
                        }
                    }
                }
                q = q + 1;
            }
            proof {
                assert forall|j: int|
                    0 <= j < n_defs && item_in_output(
                        *m,
                        (#[trigger] defs_list@[j]) as int,
                    ) implies deps@.contains(
                    Dependency { predecessor: defs_list@[j], successor: k },
                ) by {}
                assert forall|d: usize|
                    item_defs_set(*m, k as int).contains(d) && item_in_output(
                        *m,
                        d as int,
                    ) implies deps@.contains(Dependency { predecessor: d, successor: k }) by {
                    assert(defs_list@.to_set().contains(d));
                    assert(defs_list@.contains(d));
                    let j = choose|j: int| 0 <= j < defs_list@.len() && defs_list@[j] == d;
                }
            }
        }
        k = k + 1;
    }

    let tsr = toposort(&ids, &deps);

    let mut acc = CcPrerequisites::new();
    let mut h_core = String::new();
    let mut rs_body = String::new();
    let mut j: usize = 0;
    proof {
        crate::snippet::lemma_empty_to_set::<CcInclude>();
    }
    while j < tsr.ordered.len()
        invariant
            crate::model::surface_wf(*m),
            n_items == m.items.len(),
            records@.len() == n_items,
            j <= tsr.ordered@.len(),
            forall|t: int|
                0 <= t < n_items ==> ((#[trigger] records@[t]) is Some <==> item_in_output(*m, t)),
            forall|t: int|
                0 <= t < n_items ==> ((#[trigger] records@[t]) matches Some(ti) ==> {
                    &&& ti.cc.tokens@ == item_result_text_cc(*m, t)
                    &&& ti.rs@ == item_result_text_rs(*m, t)
                    &&& ti.cc.prereqs.wf()
                    &&& ti.cc.prereqs.includes_set() == item_includes_set(*m, t)
                    &&& ti.cc.prereqs.defs_set() == item_defs_set(*m, t)
                }),
            forall|x: usize| #[trigger]
                ids@.contains(x) <==> (x < n_items && item_in_output(*m, x as int)),
            forall|x: usize|
                #![trigger tsr.ordered@.contains(x)]
                #![trigger tsr.failed@.contains(x)]
                (tsr.ordered@.contains(x) || tsr.failed@.contains(x)) <==> ids@.contains(x),
            acc.wf(),
            acc.includes_set() =~= includes_union(*m, tsr.ordered@, j as int),
            h_core@ == placed_concat(*m, tsr.ordered@, j as int),
            rs_body@ == rs_concat(*m, tsr.ordered@, j as int),
        decreases tsr.ordered@.len() - j,
    {
        let o = tsr.ordered[j];
        proof {
            assert(tsr.ordered@.contains(tsr.ordered@[j as int]));
        }
        match &records[o] {
            Some(ti) => {
                acc.add_includes(&ti.cc.prereqs.includes);
                let placed = wrap_in_namespace(&m.items[o], ti.cc.tokens.clone());
                h_core.append(placed.as_str());
                rs_body.append(ti.rs.as_str());
                proof {
                    assert(acc.includes_set() =~= includes_union(*m, tsr.ordered@, j + 1));
                    assert(h_core@ =~= placed_concat(*m, tsr.ordered@, j + 1));
                    assert(rs_body@ =~= rs_concat(*m, tsr.ordered@, j + 1));
                }
            },
            None => {
                proof {
                    assert(false);
                }
            },
        }
        j = j + 1;
    }

    let mut failed_comments = String::new();
    let mut w: usize = 0;
    while w < tsr.failed.len()
        invariant
            crate::model::surface_wf(*m),
            n_items == m.items.len(),
            w <= tsr.failed@.len(),
            forall|x: usize| #[trigger]
                ids@.contains(x) <==> (x < n_items && item_in_output(*m, x as int)),
            forall|x: usize|
                #![trigger tsr.ordered@.contains(x)]
                #![trigger tsr.failed@.contains(x)]
                (tsr.ordered@.contains(x) || tsr.failed@.contains(x)) <==> ids@.contains(x),
            failed_comments@ == failed_concat(*m, tsr.failed@, w as int),
        decreases tsr.failed@.len() - w,
    {
        let x = tsr.failed[w];
        proof {
            assert(tsr.failed@.contains(tsr.failed@[w as int]));
            assert(ids@.contains(tsr.failed@[w as int]));
        }
        let ti = format_unsupported_item(
            &m.items[x],
            Error::new(String::from_str("Definition dependency cycle")),
        );
        failed_comments.append(ti.cc.tokens.as_str());
        proof {
            assert(failed_comments@ =~= failed_concat(*m, tsr.failed@, w + 1));
        }
        w = w + 1;
    }

    proof {
        lemma_includes_canonical(acc.includes@);
    }
    let includes_block = render_includes(&acc.includes);

    let mut h_body = includes_block;
    h_body.append("\n");
    h_body.append("namespace ");
    h_body.append(crate_name.as_str());
    h_body.append(" {\n");
    h_body.append(h_core.as_str());
    h_body.append(failed_comments.as_str());
    h_body.append("}\n");

    proof {
        let ordered = tsr.ordered@;
        let failed = tsr.failed@;
        assert(h_body@ =~= h_body_text(*m, ordered, failed));
        assert(emission_order_ok(*m, ordered, failed)) by {
            assert(forall|x: usize|
                #![trigger ordered.contains(x)]
                #![trigger failed.contains(x)]
                (ordered.contains(x) || failed.contains(x)) <==> item_in_output(*m, x as int));
            assert forall|pos: int, d: usize|
                #![trigger item_defs_set(*m, ordered[pos] as int).contains(d)]
                0 <= pos < ordered.len() && item_defs_set(*m, ordered[pos] as int).contains(d)
                    && item_in_output(*m, d as int) implies exists|jj: int|
                0 <= jj < pos && ordered[jj] == d by {
                let x = ordered[pos];
                assert(ordered.contains(x));
                assert(item_in_output(*m, x as int));
                let dep = Dependency { predecessor: d, successor: x };
                assert(deps@.contains(dep));
                let a = choose|a: int| 0 <= a < deps@.len() && deps@[a] == dep;
                assert(ids@.contains(d));
                assert(order_respects_deps(ordered, deps@, ids@));
                assert(exists|jj: int| 0 <= jj < pos && ordered[jj] == deps@[a].predecessor);
            }
            assert forall|x: usize, d: usize|
                #![trigger failed.contains(x), item_defs_set(*m, x as int).contains(d)]
                failed.contains(d) && item_in_output(*m, x as int) && item_defs_set(
                    *m,
                    x as int,
                ).contains(d) && item_in_output(*m, d as int) implies failed.contains(x) by {
                if ordered.contains(x) {
                    let pos = choose|pos: int| 0 <= pos < ordered.len() && ordered[pos] == x;
                    assert(item_defs_set(*m, ordered[pos] as int).contains(d));
                    assert(exists|jj: int| 0 <= jj < pos && ordered[jj] == d);
                    let jj = choose|jj: int| 0 <= jj < pos && ordered[jj] == d;
                    assert(ordered.contains(ordered[jj]));
                    assert(false);
                } else {
                    assert(ids@.contains(x));
                }
            }
            if forall|x: usize, d: usize|
                #![trigger item_defs_set(*m, x as int).contains(d)]
                item_in_output(*m, x as int) && item_defs_set(*m, x as int).contains(d)
                    ==> !item_in_output(*m, d as int) {
                assert(deps@.len() == 0) by {
                    if deps@.len() > 0 {
                        let dep = deps@[0];
                        assert(item_defs_set(*m, dep.successor as int).contains(dep.predecessor));
                    }
                }
                assert(ordered == ids@);
                assert(forall|p1: int, p2: int|
                    0 <= p1 < p2 < ordered.len() ==> #[trigger] ordered[p1] < #[trigger] ordered[p2]);
                assert(failed.len() == 0) by {
                    if failed.len() > 0 {
                        assert(failed.contains(failed[0]));
                        assert(ids@.contains(failed[0]));
                        assert(ordered.contains(failed[0]));
                    }
                }
                assert(failed =~= Seq::<usize>::empty());
            }
        }
    }

    Ok(GeneratedBindings { h_body, rs_body })
}

/// The comment that opens both generated files.
pub open spec fn top_comment_text(name: Seq<char>) -> Seq<char> {
    "// Automatically @generated C++ bindings for the following Rust crate:\n// "@ + name
        + "\n\n"@
}

/// The comment emitted in place of both bodies when the whole run failed.
pub open spec fn crate_failure_text(name: Seq<char>) -> Seq<char> {
    "// "@ + ("Failed to generate bindings for the crate"@ + ": "@ + cc_ident_err(name)) + "\n"@
}

impl GeneratedBindings {
    /// Runs one whole translation: checks the module-level precondition (a
    /// panic strategy that is safe across the language boundary), translates
    /// and orders the items, and wraps both bodies with the shared prologue.
    /// A failure below the crate level never aborts the run; it is folded
    /// into the output as comments.
    pub fn generate(m: &ModuleSurface) -> (r: Result<GeneratedBindings, Error>)
        requires
            crate::model::surface_wf(*m),
        ensures
            r is Ok <==> m.panic_strategy is Abort,
            r matches Err(e) ==> e@ == "No support for panic=unwind strategy"@,
            r matches Ok(gb) ==> (!cc_ident_ok(m.name@) ==> {
                &&& gb.h_body@ == top_comment_text(m.name@) + "#pragma once\n\n"@
                    + crate_failure_text(m.name@)
                &&& gb.rs_body@ == top_comment_text(m.name@)
                    + "#![allow(improper_ctypes_definitions)]\n\n"@ + crate_failure_text(m.name@)
            }),
            r matches Ok(gb) ==> (cc_ident_ok(m.name@) ==> exists|
                ordered: Seq<usize>,
                failed: Seq<usize>,
            |
                #![auto]
                {
                    &&& emission_order_ok(*m, ordered, failed)
                    &&& gb.h_body@ == top_comment_text(m.name@) + "#pragma once\n\n"@
                        + h_body_text(*m, ordered, failed)
                    &&& gb.rs_body@ == top_comment_text(m.name@)
                        + "#![allow(improper_ctypes_definitions)]\n\n"@ + rs_body_text(
                        *m,
                        ordered,
                    )
                }),
    {
        match m.panic_strategy {
            PanicStrategy::Unwind => {
                return Err(Error::new(String::from_str("No support for panic=unwind strategy")));
            },
            PanicStrategy::Abort => {},
        }
        let mut top = String::from_str(
            "// Automatically @generated C++ bindings for the following Rust crate:\n// ",
        );
        top.append(m.name.as_str());
        top.append("\n\n");
        let (h_core, rs_core) = match format_crate(m) {
            Ok(gb) => (gb.h_body, gb.rs_body),
            Err(e) => {
                let mut c = String::from_str("// ");
                c.append(
                    e.context("Failed to generate bindings for the crate").message().as_str(),
                );
                c.append("\n");
                (c.clone(), c)
            },
        };
        let mut h_body = top.clone();
        h_body.append("#pragma once\n\n");
        h_body.append(h_core.as_str());
        let mut rs_body = top;
        rs_body.append("#![allow(improper_ctypes_definitions)]\n\n");
        rs_body.append(rs_core.as_str());
        proof {
            if cc_ident_ok(m.name@) {
                assert(h_body@ =~= top_comment_text(m.name@) + "#pragma once\n\n"@ + h_core@);
                assert(rs_body@ =~= top_comment_text(m.name@)
                    + "#![allow(improper_ctypes_definitions)]\n\n"@ + rs_core@);
            } else {
                assert(h_body@ =~= top_comment_text(m.name@) + "#pragma once\n\n"@
                    + crate_failure_text(m.name@));
                assert(rs_body@ =~= top_comment_text(m.name@)
                    + "#![allow(improper_ctypes_definitions)]\n\n"@ + crate_failure_text(
                    m.name@,
                ));
            }
        }
        Ok(GeneratedBindings { h_body, rs_body })
    }
}

} // verus!
