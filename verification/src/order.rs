//! The dependency orderer: computes an order in which the translated items
//! can be emitted so that every declaration precedes the items that depend on
//! it, breaking ties by the items' source positions, and isolating the items
//! of unresolvable cycles into a separate bucket.

use vstd::prelude::*;

use crate::snippet::defs_sorted;

verus! {

/// One edge of the dependency graph: `predecessor` must be declared before
/// `successor`.
#[derive(Clone, Copy, PartialEq, Eq, Structural)]
pub struct Dependency {
    pub predecessor: usize,
    pub successor: usize,
}

/// The orderer's result: the items that could be arranged, in emission
/// order, and the items that could not (each one sits on or behind a
/// dependency cycle).
pub struct TopoSortResult {
    pub ordered: Vec<usize>,
    pub failed: Vec<usize>,
}

/// Whether `x` can be emitted now: every predecessor of `x` that is a node at
/// all has already been emitted.
pub open spec fn node_ready(
    x: usize,
    deps: Seq<Dependency>,
    nodes: Seq<usize>,
    emitted: Seq<usize>,
) -> bool {
    forall|d: int|
        0 <= d < deps.len() && (#[trigger] deps[d]).successor == x && nodes.contains(
            deps[d].predecessor,
        ) ==> emitted.contains(deps[d].predecessor)
}

/// The emission-order law: whenever an edge's successor stands in the order
/// and its predecessor is a node, the predecessor stands strictly earlier.
pub open spec fn order_respects_deps(
    ordered: Seq<usize>,
    deps: Seq<Dependency>,
    nodes: Seq<usize>,
) -> bool {
    forall|d: int, i: int|
        #![trigger deps[d], ordered[i]]
        0 <= d < deps.len() && 0 <= i < ordered.len() && ordered[i] == deps[d].successor
            && nodes.contains(deps[d].predecessor) ==> exists|j: int|
            0 <= j < i && ordered[j] == deps[d].predecessor
}

/// Linear membership scan.
fn vec_contains(v: &Vec<usize>, x: usize) -> (r: bool)
    ensures
        r == v@.contains(x),
{
    let mut i: usize = 0;
    while i < v.len()
        invariant
            i <= v@.len(),
            forall|j: int| 0 <= j < i ==> v@[j] != x,
        decreases v@.len() - i,
    {
        if v[i] == x {
            return true;
        }
        i = i + 1;
    }
    false
}

/// Whether every predecessor of `x` among the nodes has been emitted.
fn is_ready(x: usize, deps: &Vec<Dependency>, nodes: &Vec<usize>, emitted: &Vec<usize>) -> (r:
    bool)
    ensures
        r == node_ready(x, deps@, nodes@, emitted@),
{
    let mut d: usize = 0;
    while d < deps.len()
        invariant
            d <= deps@.len(),
            forall|k: int|
                0 <= k < d && (#[trigger] deps@[k]).successor == x && nodes@.contains(
                    deps@[k].predecessor,
                ) ==> emitted@.contains(deps@[k].predecessor),
        decreases deps@.len() - d,
    {
        let dep = deps[d];
        if dep.successor == x && vec_contains(nodes, dep.predecessor) && !vec_contains(
            emitted,
            dep.predecessor,
        ) {
            return false;
        }
        d = d + 1;
    }
    true
}

/// A duplicate-free sequence drawn from the nodes is no longer than the node
/// list.
proof fn lemma_emitted_bound(emitted: Seq<usize>, nodes: Seq<usize>)
    requires
        emitted.no_duplicates(),
        defs_sorted(nodes),
        forall|x: usize| #[trigger] emitted.contains(x) ==> nodes.contains(x),
    ensures
        emitted.len() <= nodes.len(),
{
    emitted.unique_seq_to_set();
    assert(nodes.no_duplicates());
    nodes.unique_seq_to_set();
    assert(emitted.to_set().subset_of(nodes.to_set()));
    vstd::set_lib::lemma_len_subset(emitted.to_set(), nodes.to_set());
}

/// What a sequence contains after a push: everything it contained, and the
/// pushed element.
pub proof fn lemma_push_contains(s: Seq<usize>, x: usize)
    ensures
        forall|y: usize| #[trigger] s.push(x).contains(y) <==> (s.contains(y) || y == x),
{
    assert forall|y: usize| #[trigger] s.push(x).contains(y) implies (s.contains(y) || y == x) by {
        let k = choose|k: int| 0 <= k < s.push(x).len() && s.push(x)[k] == y;
        if k < s.len() {
            assert(s[k] == y);
        }
    }
    assert forall|y: usize| (s.contains(y) || y == x) implies #[trigger] s.push(x).contains(y) by {
        if y == x {
            assert(s.push(x)[s.len() as int] == y);
        } else {
            let k = choose|k: int| 0 <= k < s.len() && s[k] == y;
            assert(s.push(x)[k] == y);
        }
    }
}

/// Arranges the nodes so that, wherever the edges allow it, every
/// predecessor is emitted before its successors, with ties broken by source
/// position: among the nodes whose predecessors have all been emitted, the
/// earliest-declared one goes next.  Nodes that can never become ready —
/// those on a dependency cycle, and those behind one — land in `failed`.
///
/// `nodes` holds the items' source positions in ascending order.  An edge
/// whose predecessor is not a node at all does not constrain the order.
///
/// The contract carries the orderer's laws: `ordered` and `failed` together
/// partition the nodes; an edge between two nodes either places the
/// predecessor strictly before the successor in `ordered` or, when the
/// predecessor failed, carries the successor into `failed` with it; and a
/// set of mutually independent nodes — one with no edges at all — keeps its
/// source order unchanged.
pub fn toposort(nodes: &Vec<usize>, deps: &Vec<Dependency>) -> (r: TopoSortResult)
    requires
        defs_sorted(nodes@),
    ensures
        r.ordered@.no_duplicates(),
        r.failed@.no_duplicates(),
        forall|x: usize|
            #![trigger r.ordered@.contains(x)]
            #![trigger r.failed@.contains(x)]
            (r.ordered@.contains(x) || r.failed@.contains(x)) <==> nodes@.contains(x),
        forall|x: usize| !(#[trigger] r.ordered@.contains(x) && r.failed@.contains(x)),
        order_respects_deps(r.ordered@, deps@, nodes@),
        forall|d: int|
            0 <= d < deps@.len() && nodes@.contains((#[trigger] deps@[d]).predecessor)
                && nodes@.contains(deps@[d].successor) && r.failed@.contains(deps@[d].predecessor)
                ==> r.failed@.contains(deps@[d].successor),
        deps@.len() == 0 ==> r.ordered@ == nodes@,
{
    let n = nodes.len();
    let mut done: Vec<bool> = Vec::new();
    let mut q: usize = 0;
    while q < n
        invariant
            q <= n,
            done@.len() == q,
            forall|p: int| 0 <= p < q ==> !(#[trigger] done@[p]),
        decreases n - q,
    {
        done.push(false);
        q = q + 1;
    }

    let mut ordered: Vec<usize> = Vec::new();
    let mut go = true;
    while go
        invariant
            n == nodes@.len(),
            done@.len() == n,
            defs_sorted(nodes@),
            ordered@.no_duplicates(),
            ordered@.len() <= n,
            forall|x: usize| #[trigger] ordered@.contains(x) ==> nodes@.contains(x),
            forall|p: int|
                0 <= p < n ==> ((#[trigger] done@[p]) <==> ordered@.contains(nodes@[p])),
            order_respects_deps(ordered@, deps@, nodes@),
            !go ==> (forall|p: int|
                0 <= p < n ==> (#[trigger] done@[p]) || !node_ready(
                    nodes@[p],
                    deps@,
                    nodes@,
                    ordered@,
                )),
            deps@.len() == 0 ==> ordered@ == nodes@.take(ordered@.len() as int),
            deps@.len() == 0 ==> (forall|p: int|
                0 <= p < n ==> ((#[trigger] done@[p]) <==> p < ordered@.len())),
        decreases 2 * (n - ordered@.len()) + (if go {
            1int
        } else {
            0int
        }),
    {
        let mut found: Option<usize> = None;
        let mut p: usize = 0;
        while p < n && found.is_none()
            invariant
                n == nodes@.len(),
                done@.len() == n,
                p <= n,
                forall|t: int|
                    0 <= t < p ==> (#[trigger] done@[t]) || !node_ready(
                        nodes@[t],
                        deps@,
                        nodes@,
                        ordered@,
                    ),
                found matches Some(w) ==> (w == p && p < n && !done@[w as int] && node_ready(
                    nodes@[w as int],
                    deps@,
                    nodes@,
                    ordered@,
                )),
            decreases n - p + (if found.is_none() {
                1int
            } else {
                0int
            }),
        {
            if !done[p] && is_ready(nodes[p], deps, nodes, &ordered) {
                found = Some(p);
            } else {
                p = p + 1;
            }
        }
        match found {
            Some(w) => {
                let ghost before = ordered@;
                let ghost done_before = done@;
                done.set(w, true);
                ordered.push(nodes[w]);
                proof {
                    let now = ordered@;
                    let x = nodes@[w as int];
                    assert(now == before.push(x));
                    assert(forall|i: int| 0 <= i < before.len() ==> #[trigger] now[i] == before[i]);
                    assert(now[before.len() as int] == x);
                    assert(!before.contains(x));
                    lemma_push_contains(before, x);
                    assert(now.no_duplicates()) by {
                        assert(forall|i: int, j: int|
                            0 <= i < j < now.len() ==> now[i] != now[j]) by {
                            assert(forall|i: int|
                                0 <= i < before.len() ==> #[trigger] before[i] != x);
                        }
                    }
                    assert(forall|x2: usize| #[trigger] now.contains(x2) ==> nodes@.contains(x2));
                    assert(now.len() <= n) by {
                        lemma_emitted_bound(now, nodes@);
                    }
                    assert(forall|p2: int|
                        0 <= p2 < n ==> ((#[trigger] done@[p2]) <==> now.contains(nodes@[p2])))
                        by {
                        assert(forall|p2: int|
                            0 <= p2 < n && p2 != w ==> nodes@[p2] != x);
                        assert(now.contains(x));
                        assert(forall|p2: int|
                            0 <= p2 < n && p2 != w ==> done@[p2] == done_before[p2]);
                    }
                    assert(order_respects_deps(now, deps@, nodes@)) by {
                        assert(node_ready(x, deps@, nodes@, before));
                        assert forall|d: int, i: int|
                            #![trigger deps@[d], now[i]]
                            0 <= d < deps@.len() && 0 <= i < now.len() && now[i]
                                == deps@[d].successor && nodes@.contains(
                                deps@[d].predecessor,
                            ) implies exists|j: int|
                            0 <= j < i && now[j] == deps@[d].predecessor by {
                            if i < before.len() {
                                assert(before[i] == deps@[d].successor);
                                let j = choose|j: int|
                                    0 <= j < i && before[j] == deps@[d].predecessor;
                                assert(now[j] == deps@[d].predecessor);
                            } else {
                                assert(now[i] == x);
                                assert(before.contains(deps@[d].predecessor));
                                let j = choose|j: int|
                                    0 <= j < before.len() && before[j] == deps@[d].predecessor;
                                assert(now[j] == deps@[d].predecessor);
                            }
                        }
                    }
                    if deps@.len() == 0 {
                        assert forall|t: int| 0 <= t < w implies #[trigger] done_before[t] by {
                            assert(node_ready(nodes@[t], deps@, nodes@, before));
                            assert(done_before[t] || !node_ready(nodes@[t], deps@, nodes@, before));
                        }
                        assert(!done_before[w as int]);
                        assert(w <= before.len()) by {
                            if w > 0 {
                                assert(done_before[w - 1]);
                                assert(w - 1 < before.len());
                            }
                        }
                        assert(w >= before.len()) by {
                            if (w as int) < before.len() as int {
                                assert(done_before[w as int]);
                            }
                        }
                        assert(w == before.len());
                        assert(now =~= nodes@.take(now.len() as int));
                        assert(forall|p2: int|
                            0 <= p2 < n ==> ((#[trigger] done@[p2]) <==> p2 < now.len()));
                    }
                }
            },
            None => {
                go = false;
                proof {
                    assert(forall|t: int|
                        0 <= t < n ==> (#[trigger] done@[t]) || !node_ready(
                            nodes@[t],
                            deps@,
                            nodes@,
                            ordered@,
                        ));
                }
            },
        }
    }

    let mut failed: Vec<usize> = Vec::new();
    let mut p: usize = 0;
    while p < n
        invariant
            n == nodes@.len(),
            done@.len() == n,
            defs_sorted(nodes@),
            p <= n,
            failed@.no_duplicates(),
            forall|t: int| 0 <= t < p && !(#[trigger] done@[t]) ==> failed@.contains(nodes@[t]),
            forall|x: usize| #[trigger]
                failed@.contains(x) ==> exists|t: int| 0 <= t < p && nodes@[t] == x && !done@[t],
        decreases n - p,
    {
        if !done[p] {
            let ghost before = failed@;
            failed.push(nodes[p]);
            proof {
                let now = failed@;
                let x = nodes@[p as int];
                assert(forall|i: int| 0 <= i < before.len() ==> #[trigger] now[i] == before[i]);
                assert(now[before.len() as int] == x);
                lemma_push_contains(before, x);
                assert(!before.contains(x)) by {
                    if before.contains(x) {
                        let t = choose|t: int| 0 <= t < p && nodes@[t] == x && !done@[t];
                        assert(nodes@[t] < nodes@[p as int]);
                    }
                }
                assert(now.no_duplicates()) by {
                    assert(forall|i: int, j: int| 0 <= i < j < now.len() ==> now[i] != now[j])
                        by {
                        assert(forall|i: int| 0 <= i < before.len() ==> #[trigger] before[i] != x);
                    }
                }
            }
        }
        p = p + 1;
    }

    proof {
        let o = ordered@;
        let fl = failed@;
        let ns = nodes@;
        assert(forall|x: usize| #[trigger] fl.contains(x) ==> ns.contains(x)) by {
            assert forall|x: usize| #[trigger] fl.contains(x) implies ns.contains(x) by {
                let t = choose|t: int| 0 <= t < n && ns[t] == x && !done@[t];
                assert(ns.contains(ns[t]));
            }
        }
        assert(forall|x: usize| #[trigger] ns.contains(x) ==> (o.contains(x) || fl.contains(x)))
            by {
            assert forall|x: usize| #[trigger] ns.contains(x) implies (o.contains(x)
                || fl.contains(x)) by {
                let t = choose|t: int| 0 <= t < ns.len() && ns[t] == x;
                if done@[t] {
                    assert(o.contains(ns[t]));
                } else {
                    assert(fl.contains(ns[t]));
                }
            }
        }
        assert(forall|x: usize| !(#[trigger] o.contains(x) && fl.contains(x))) by {
            assert forall|x: usize| #[trigger] fl.contains(x) implies !o.contains(x) by {
                let t = choose|t: int| 0 <= t < n && ns[t] == x && !done@[t];
                assert(!o.contains(ns[t]));
            }
        }
        assert forall|d: int|
            0 <= d < deps@.len() && ns.contains((#[trigger] deps@[d]).predecessor) && ns.contains(
                deps@[d].successor,
            ) && fl.contains(deps@[d].predecessor) implies fl.contains(deps@[d].successor) by {
            let succ = deps@[d].successor;
            let pred = deps@[d].predecessor;
            if o.contains(succ) {
                let i = choose|i: int| 0 <= i < o.len() && o[i] == succ;
                assert(exists|j: int| 0 <= j < i && o[j] == pred);
                let j = choose|j: int| 0 <= j < i && o[j] == pred;
                assert(o.contains(pred));
            }
        }
        if deps@.len() == 0 {
            assert(forall|t: int| 0 <= t < n ==> #[trigger] done@[t]) by {
                assert(forall|t: int| 0 <= t < n ==> node_ready(ns[t], deps@, ns, o));
            }
            if n > 0 {
                assert(done@[n - 1]);
            }
            assert(o.len() == n);
            assert(o =~= ns);
        }
    }

    TopoSortResult { ordered, failed }
}

} // verus!
