//! The value produced by every translation step: a piece of C++ code together
//! with the prerequisites it needs in order to compile — `#include`s and local
//! items that must have been declared earlier.

use vstd::prelude::*;

verus! {

/// An `#include` that a snippet depends on.
#[derive(Clone, Copy, PartialEq, Eq, Structural, Debug)]
pub enum CcInclude {
    /// `<cstdint>`, for the fixed-width integer types.
    Cstdint,
    /// `<utility>`, for `std::move`.
    Utility,
}

/// The position of an include in the emission order.
pub open spec fn include_rank(i: CcInclude) -> int {
    match i {
        CcInclude::Cstdint => 0,
        CcInclude::Utility => 1,
    }
}

/// The position of an include in the emission order.
pub fn include_rank_of(i: CcInclude) -> (r: u8)
    ensures
        r as int == include_rank(i),
{
    match i {
        CcInclude::Cstdint => 0,
        CcInclude::Utility => 1,
    }
}

/// Strictly increasing by rank: deduplicated and in emission order.
pub open spec fn includes_sorted(s: Seq<CcInclude>) -> bool {
    forall|i: int, j: int|
        0 <= i < j < s.len() ==> include_rank(#[trigger] s[i]) < include_rank(#[trigger] s[j])
}

/// Strictly increasing: deduplicated and in ascending order.
pub open spec fn defs_sorted(s: Seq<usize>) -> bool {
    forall|i: int, j: int| 0 <= i < j < s.len() ==> #[trigger] s[i] < #[trigger] s[j]
}

/// What generated C++ code needs in order to compile: the set of `#include`s,
/// and the set of local items whose declarations must appear earlier.
///
/// Both sets are kept deduplicated and sorted, so two prerequisite values with
/// the same contents are the same value, and merging is order-independent.
#[derive(Debug)]
pub struct CcPrerequisites {
    /// The `#include`s the code depends on, in emission order.
    pub includes: Vec<CcInclude>,
    /// The items (by their position in the module's item list) that must be
    /// declared before the code.
    pub defs: Vec<usize>,
}

impl CcPrerequisites {
    /// Both sequences sorted strictly, hence free of duplicates.
    pub open spec fn wf(&self) -> bool {
        includes_sorted(self.includes@) && defs_sorted(self.defs@)
    }

    /// The contents of the include set.
    pub open spec fn includes_set(&self) -> Set<CcInclude> {
        self.includes@.to_set()
    }

    /// The contents of the local-declaration set.
    pub open spec fn defs_set(&self) -> Set<usize> {
        self.defs@.to_set()
    }

    /// Empty prerequisites.
    pub fn new() -> (r: CcPrerequisites)
        ensures
            r.wf(),
            r.includes@ =~= Seq::<CcInclude>::empty(),
            r.defs@ =~= Seq::<usize>::empty(),
    {
        CcPrerequisites { includes: Vec::new(), defs: Vec::new() }
    }

    /// Whether both sets are empty.
    pub fn is_empty(&self) -> (r: bool)
        ensures
            r == (self.includes@.len() == 0 && self.defs@.len() == 0),
    {
        self.includes.len() == 0 && self.defs.len() == 0
    }

    /// Adds one include, keeping the order and the absence of duplicates.
    pub fn insert_include(&mut self, x: CcInclude)
        requires
            old(self).wf(),
        ensures
            final(self).wf(),
            final(self).includes@.to_set() == old(self).includes@.to_set().insert(x),
            final(self).defs@ == old(self).defs@,
            old(self).includes@.len() == 0 ==> final(self).includes@ == seq![x],
    {
        let n = self.includes.len();
        let rx = include_rank_of(x);
        let mut i: usize = 0;
        while i < n && include_rank_of(self.includes[i]) < rx
            invariant
                self.wf(),
                self == old(self),
                n == self.includes@.len(),
                i <= n,
                rx as int == include_rank(x),
                forall|j: int|
                    0 <= j < i ==> include_rank(#[trigger] self.includes@[j]) < rx as int,
            decreases n - i,
        {
            i = i + 1;
        }
        if i < n && include_rank_of(self.includes[i]) == rx {
            proof {
                assert(self.includes@[i as int] == x) by {
                    assert(include_rank(self.includes@[i as int]) == include_rank(x));
                    match x {
                        CcInclude::Cstdint => {},
                        CcInclude::Utility => {},
                    }
                }
                assert(self.includes@.contains(x));
                assert(self.includes@.to_set() =~= self.includes@.to_set().insert(x));
            }
            return ;
        }
        proof {
            assert(forall|j: int|
                i <= j < n ==> (rx as int) < include_rank(#[trigger] self.includes@[j])) by {
                if i < n {
                    assert((rx as int) < include_rank(self.includes@[i as int]));
                    assert(forall|j: int|
                        (i as int) < j < n ==> include_rank(self.includes@[i as int])
                            < include_rank(#[trigger] self.includes@[j]));
                }
            }
        }
        let ghost before = self.includes@;
        self.includes.insert(i, x);
        proof {
            let now = self.includes@;
            assert(now =~= before.take(i as int) + seq![x] + before.skip(i as int));
            if before.len() == 0 {
                assert(now =~= seq![x]);
            }
            assert(forall|k: int| 0 <= k < i ==> #[trigger] now[k] == before[k]);
            assert(now[i as int] == x);
            assert(forall|k: int|
                (i as int) < k < now.len() ==> #[trigger] now[k] == before[k - 1]);
            assert(final(self).wf()) by {
                assert(forall|a: int, b: int|
                    0 <= a < b < now.len() ==> include_rank(#[trigger] now[a]) < include_rank(
                        #[trigger] now[b],
                    ));
            }
            assert forall|y: CcInclude| #[trigger]
                now.contains(y) implies before.contains(y) || y == x by {
                let k = choose|k: int| 0 <= k < now.len() && now[k] == y;
                if k < i {
                    assert(before[k] == y);
                } else if k > i {
                    assert(before[k - 1] == y);
                }
            }
            assert forall|y: CcInclude|
                before.contains(y) || y == x implies #[trigger] now.contains(y) by {
                if y == x {
                    assert(now[i as int] == y);
                } else {
                    let k = choose|k: int| 0 <= k < before.len() && before[k] == y;
                    if k < i {
                        assert(now[k] == y);
                    } else {
                        assert(now[k + 1] == y);
                    }
                }
            }
            assert(now.to_set() =~= before.to_set().insert(x));
        }
    }

    /// Adds one local-declaration prerequisite, keeping the order and the
    /// absence of duplicates.
    pub fn insert_def(&mut self, x: usize)
        requires
            old(self).wf(),
        ensures
            final(self).wf(),
            final(self).defs@.to_set() == old(self).defs@.to_set().insert(x),
            final(self).includes@ == old(self).includes@,
            old(self).defs@.len() == 0 ==> final(self).defs@ == seq![x],
    {
        let n = self.defs.len();
        let mut i: usize = 0;
        while i < n && self.defs[i] < x
            invariant
                self.wf(),
                self == old(self),
                n == self.defs@.len(),
                i <= n,
                forall|j: int| 0 <= j < i ==> #[trigger] self.defs@[j] < x,
            decreases n - i,
        {
            i = i + 1;
        }
        if i < n && self.defs[i] == x {
            proof {
                assert(self.defs@.contains(x));
                assert(self.defs@.to_set() =~= self.defs@.to_set().insert(x));
            }
            return ;
        }
        proof {
            assert(forall|j: int| i <= j < n ==> x < #[trigger] self.defs@[j]) by {
                if i < n {
                    assert(x < self.defs@[i as int]);
                    assert(forall|j: int|
                        (i as int) < j < n ==> self.defs@[i as int] < #[trigger] self.defs@[j]);
                }
            }
        }
        let ghost before = self.defs@;
        self.defs.insert(i, x);
        proof {
            let now = self.defs@;
            assert(now =~= before.take(i as int) + seq![x] + before.skip(i as int));
            if before.len() == 0 {
                assert(now =~= seq![x]);
            }
            assert(forall|k: int| 0 <= k < i ==> #[trigger] now[k] == before[k]);
            assert(now[i as int] == x);
            assert(forall|k: int|
                (i as int) < k < now.len() ==> #[trigger] now[k] == before[k - 1]);
            assert(final(self).wf()) by {
                assert(forall|a: int, b: int|
                    0 <= a < b < now.len() ==> #[trigger] now[a] < #[trigger] now[b]);
            }
            assert forall|y: usize| #[trigger]
                now.contains(y) implies before.contains(y) || y == x by {
                let k = choose|k: int| 0 <= k < now.len() && now[k] == y;
                if k < i {
                    assert(before[k] == y);
                } else if k > i {
                    assert(before[k - 1] == y);
                }
            }
            assert forall|y: usize|
                before.contains(y) || y == x implies #[trigger] now.contains(y) by {
                if y == x {
                    assert(now[i as int] == y);
                } else {
                    let k = choose|k: int| 0 <= k < before.len() && before[k] == y;
                    if k < i {
                        assert(now[k] == y);
                    } else {
                        assert(now[k + 1] == y);
                    }
                }
            }
            assert(now.to_set() =~= before.to_set().insert(x));
        }
    }

    /// Merges the includes of `rhs` into `self`, leaving `defs` unchanged.
    pub fn add_includes(&mut self, rhs: &Vec<CcInclude>)
        requires
            old(self).wf(),
        ensures
            final(self).wf(),
            final(self).includes_set() == old(self).includes_set().union(rhs@.to_set()),
            final(self).defs@ == old(self).defs@,
    {
        let mut i: usize = 0;
        while i < rhs.len()
            invariant
                self.wf(),
                i <= rhs@.len(),
                self.includes@.to_set() =~= old(self).includes@.to_set().union(
                    rhs@.take(i as int).to_set(),
                ),
                self.defs@ == old(self).defs@,
            decreases rhs@.len() - i,
        {
            self.insert_include(rhs[i]);
            proof {
                assert(rhs@.take(i + 1) =~= rhs@.take(i as int).push(rhs@[i as int]));
                lemma_to_set_push(rhs@.take(i as int), rhs@[i as int]);
            }
            i = i + 1;
        }
        proof {
            assert(rhs@.take(rhs@.len() as int) =~= rhs@);
        }
    }

    /// Merges the contents of `rhs` into `self`.  Both sets grow to the union;
    /// since the representation is sorted and deduplicated, the result does
    /// not depend on the order in which independent prerequisites are merged.
    pub fn add_assign(&mut self, rhs: CcPrerequisites)
        requires
            old(self).wf(),
        ensures
            final(self).wf(),
            final(self).includes_set() == old(self).includes_set().union(rhs.includes_set()),
            final(self).defs_set() == old(self).defs_set().union(rhs.defs_set()),
    {
        let mut i: usize = 0;
        while i < rhs.includes.len()
            invariant
                self.wf(),
                i <= rhs.includes@.len(),
                self.includes@.to_set() =~= old(self).includes@.to_set().union(
                    rhs.includes@.take(i as int).to_set(),
                ),
                self.defs@ == old(self).defs@,
            decreases rhs.includes@.len() - i,
        {
            self.insert_include(rhs.includes[i]);
            proof {
                assert(rhs.includes@.take(i + 1) =~= rhs.includes@.take(i as int).push(
                    rhs.includes@[i as int],
                ));
                lemma_to_set_push(rhs.includes@.take(i as int), rhs.includes@[i as int]);
            }
            i = i + 1;
        }
        proof {
            assert(rhs.includes@.take(rhs.includes@.len() as int) =~= rhs.includes@);
        }
        let mut j: usize = 0;
        while j < rhs.defs.len()
            invariant
                self.wf(),
                j <= rhs.defs@.len(),
                self.includes@.to_set() =~= old(self).includes@.to_set().union(
                    rhs.includes@.to_set(),
                ),
                self.defs@.to_set() =~= old(self).defs@.to_set().union(
                    rhs.defs@.take(j as int).to_set(),
                ),
            decreases rhs.defs@.len() - j,
        {
            self.insert_def(rhs.defs[j]);
            proof {
                assert(rhs.defs@.take(j + 1) =~= rhs.defs@.take(j as int).push(
                    rhs.defs@[j as int],
                ));
                lemma_to_set_push(rhs.defs@.take(j as int), rhs.defs@[j as int]);
            }
            j = j + 1;
        }
        proof {
            assert(rhs.defs@.take(rhs.defs@.len() as int) =~= rhs.defs@);
        }
    }
}

/// The empty sequence has empty contents.
pub proof fn lemma_empty_to_set<A>()
    ensures
        Seq::<A>::empty().to_set() == Set::<A>::empty(),
{
    assert(forall|y: A| !Seq::<A>::empty().contains(y));
    assert(Seq::<A>::empty().to_set() =~= Set::<A>::empty());
}

/// A one-element sequence has exactly that element as contents.
pub proof fn lemma_singleton_to_set<A>(x: A)
    ensures
        seq![x].to_set() == Set::<A>::empty().insert(x),
{
    assert(seq![x][0] == x);
    assert(seq![x].contains(x));
    assert forall|y: A| #[trigger] seq![x].contains(y) implies y == x by {
        let k = choose|k: int| 0 <= k < seq![x].len() && seq![x][k] == y;
        assert(k == 0);
    }
    assert(seq![x].to_set() =~= Set::<A>::empty().insert(x));
}

/// Appending an element to a sequence adds it to the contents.
pub proof fn lemma_to_set_push<A>(s: Seq<A>, x: A)
    ensures
        s.push(x).to_set() == s.to_set().insert(x),
{
    let p = s.push(x);
    assert forall|y: A| #[trigger] p.contains(y) implies s.contains(y) || y == x by {
        let k = choose|k: int| 0 <= k < p.len() && p[k] == y;
        if k < s.len() {
            assert(s[k] == y);
        }
    }
    assert forall|y: A| s.contains(y) || y == x implies #[trigger] p.contains(y) by {
        if y == x {
            assert(p[s.len() as int] == y);
        } else {
            let k = choose|k: int| 0 <= k < s.len() && s[k] == y;
            assert(p[k] == y);
        }
    }
    assert(p.to_set() =~= s.to_set().insert(x));
}

/// Dropping the first element of a duplicate-free sequence removes exactly it
/// from the contents.
proof fn lemma_distinct_tail_set<A>(s: Seq<A>)
    requires
        s.len() > 0,
        forall|i: int, j: int| 0 <= i < j < s.len() ==> #[trigger] s[i] != #[trigger] s[j],
    ensures
        s.skip(1).to_set() == s.to_set().remove(s[0]),
{
    let t = s.skip(1);
    assert forall|y: A| #[trigger] t.contains(y) implies s.contains(y) && y != s[0] by {
        let k = choose|k: int| 0 <= k < t.len() && t[k] == y;
        assert(s[k + 1] == y);
        assert(s[0] != s[k + 1]);
    }
    assert forall|y: A| s.contains(y) && y != s[0] implies #[trigger] t.contains(y) by {
        let k = choose|k: int| 0 <= k < s.len() && s[k] == y;
        assert(k != 0);
        assert(t[k - 1] == y);
    }
    assert(t.to_set() =~= s.to_set().remove(s[0]));
}

/// Two well-formed prerequisite values with the same contents are the same
/// value: the union of independent sub-translations is associative and
/// commutative, and the merge order leaves no trace in the result.
pub proof fn lemma_prerequisites_unique(a: CcPrerequisites, b: CcPrerequisites)
    requires
        a.wf(),
        b.wf(),
        a.includes_set() == b.includes_set(),
        a.defs_set() == b.defs_set(),
    ensures
        a.includes@ == b.includes@,
        a.defs@ == b.defs@,
{
    lemma_sorted_by_rank_unique(a.includes@, b.includes@);
    lemma_sorted_defs_unique(a.defs@, b.defs@);
}

/// Strictly rank-sorted include sequences with equal contents are equal.
proof fn lemma_sorted_by_rank_unique(a: Seq<CcInclude>, b: Seq<CcInclude>)
    requires
        includes_sorted(a),
        includes_sorted(b),
        a.to_set() == b.to_set(),
    ensures
        a == b,
    decreases a.len(),
{
    if a.len() == 0 {
        if b.len() > 0 {
            assert(b.contains(b[0]));
            assert(a.to_set().contains(b[0]));
        }
        assert(a =~= b);
    } else {
        assert(a.contains(a[0]));
        assert(b.to_set().contains(a[0]));
        if b.len() == 0 {
            assert(!b.to_set().contains(a[0]));
        }
        assert(b.contains(b[0]));
        assert(a.to_set().contains(b[0]));
        let ia = choose|ia: int| 0 <= ia < a.len() && a[ia] == b[0];
        let ib = choose|ib: int| 0 <= ib < b.len() && b[ib] == a[0];
        assert(a[0] == b[0]) by {
            if ia > 0 {
                assert(include_rank(a[0]) < include_rank(a[ia]));
            }
            if ib > 0 {
                assert(include_rank(b[0]) < include_rank(b[ib]));
            }
            assert(include_rank(a[0]) == include_rank(b[0]));
            match a[0] {
                CcInclude::Cstdint => {},
                CcInclude::Utility => {},
            }
        }
        assert(forall|i: int, j: int|
            0 <= i < j < a.len() ==> #[trigger] a[i] != #[trigger] a[j]) by {
            assert(forall|i: int, j: int|
                0 <= i < j < a.len() ==> include_rank(#[trigger] a[i]) != include_rank(
                    #[trigger] a[j],
                ));
        }
        assert(forall|i: int, j: int|
            0 <= i < j < b.len() ==> #[trigger] b[i] != #[trigger] b[j]) by {
            assert(forall|i: int, j: int|
                0 <= i < j < b.len() ==> include_rank(#[trigger] b[i]) != include_rank(
                    #[trigger] b[j],
                ));
        }
        lemma_distinct_tail_set(a);
        lemma_distinct_tail_set(b);
        assert(includes_sorted(a.skip(1))) by {
            assert(forall|k: int|
                0 <= k < a.skip(1).len() ==> #[trigger] a.skip(1)[k] == a[k + 1]);
        }
        assert(includes_sorted(b.skip(1))) by {
            assert(forall|k: int|
                0 <= k < b.skip(1).len() ==> #[trigger] b.skip(1)[k] == b[k + 1]);
        }
        lemma_sorted_by_rank_unique(a.skip(1), b.skip(1));
        assert forall|k: int| 0 <= k < a.len() implies a[k] == b[k] by {
            if k > 0 {
                assert(a.skip(1)[k - 1] == a[k]);
                assert(b.skip(1)[k - 1] == b[k]);
            }
        }
        assert(a =~= b);
    }
}

/// Strictly sorted def sequences with equal contents are equal.
proof fn lemma_sorted_defs_unique(a: Seq<usize>, b: Seq<usize>)
    requires
        defs_sorted(a),
        defs_sorted(b),
        a.to_set() == b.to_set(),
    ensures
        a == b,
    decreases a.len(),
{
    if a.len() == 0 {
        if b.len() > 0 {
            assert(b.contains(b[0]));
            assert(a.to_set().contains(b[0]));
        }
        assert(a =~= b);
    } else {
        assert(a.contains(a[0]));
        assert(b.to_set().contains(a[0]));
        if b.len() == 0 {
            assert(!b.to_set().contains(a[0]));
        }
        assert(b.contains(b[0]));
        assert(a.to_set().contains(b[0]));
        let ia = choose|ia: int| 0 <= ia < a.len() && a[ia] == b[0];
        let ib = choose|ib: int| 0 <= ib < b.len() && b[ib] == a[0];
        assert(a[0] == b[0]) by {
            if ia > 0 {
                assert(a[0] < a[ia]);
            }
            if ib > 0 {
                assert(b[0] < b[ib]);
            }
        }
        assert(forall|i: int, j: int|
            0 <= i < j < a.len() ==> #[trigger] a[i] != #[trigger] a[j]);
        assert(forall|i: int, j: int|
            0 <= i < j < b.len() ==> #[trigger] b[i] != #[trigger] b[j]);
        lemma_distinct_tail_set(a);
        lemma_distinct_tail_set(b);
        assert(defs_sorted(a.skip(1))) by {
            assert(forall|k: int|
                0 <= k < a.skip(1).len() ==> #[trigger] a.skip(1)[k] == a[k + 1]);
        }
        assert(defs_sorted(b.skip(1))) by {
            assert(forall|k: int|
                0 <= k < b.skip(1).len() ==> #[trigger] b.skip(1)[k] == b[k + 1]);
        }
        lemma_sorted_defs_unique(a.skip(1), b.skip(1));
        assert forall|k: int| 0 <= k < a.len() implies a[k] == b[k] by {
            if k > 0 {
                assert(a.skip(1)[k - 1] == a[k]);
                assert(b.skip(1)[k - 1] == b[k]);
            }
        }
        assert(a =~= b);
    }
}

/// A piece of C++ code together with its prerequisites.
#[derive(Debug)]
pub struct CcSnippet {
    /// The code itself.
    pub tokens: String,
    /// What the code needs in order to compile.
    pub prereqs: CcPrerequisites,
}

impl CcSnippet {
    /// A snippet with no prerequisites.
    pub fn new(tokens: String) -> (r: CcSnippet)
        ensures
            r.prereqs.wf(),
            r.tokens@ == tokens@,
            r.prereqs.includes@ =~= Seq::<CcInclude>::empty(),
            r.prereqs.defs@ =~= Seq::<usize>::empty(),
    {
        CcSnippet { tokens, prereqs: CcPrerequisites::new() }
    }

    /// A snippet that depends on a single include.
    pub fn with_include(tokens: String, inc: CcInclude) -> (r: CcSnippet)
        ensures
            r.prereqs.wf(),
            r.tokens@ == tokens@,
            r.prereqs.includes@ =~= seq![inc],
            r.prereqs.defs@ =~= Seq::<usize>::empty(),
    {
        let mut prereqs = CcPrerequisites::new();
        prereqs.insert_include(inc);
        proof {
            assert(seq![inc][0] == inc);
            assert(seq![inc].contains(inc));
            assert(includes_sorted(seq![inc]));
            assert(seq![inc].to_set() =~= Seq::<CcInclude>::empty().to_set().insert(inc)) by {
                assert(forall|y: CcInclude| !Seq::<CcInclude>::empty().contains(y));
                assert(forall|y: CcInclude| #[trigger] seq![inc].contains(y) ==> y == inc) by {
                    assert(forall|k: int| 0 <= k < 1 ==> seq![inc][k] == inc);
                }
            }
            lemma_sorted_by_rank_unique(prereqs.includes@, seq![inc]);
        }
        CcSnippet { tokens, prereqs }
    }

    /// Consumes the snippet and returns its code, while folding its
    /// prerequisites into `acc`.
    pub fn into_tokens(self, acc: &mut CcPrerequisites) -> (r: String)
        requires
            old(acc).wf(),
        ensures
            final(acc).wf(),
            r@ == self.tokens@,
            final(acc).includes_set() == old(acc).includes_set().union(
                self.prereqs.includes_set(),
            ),
            final(acc).defs_set() == old(acc).defs_set().union(self.prereqs.defs_set()),
    {
        acc.add_assign(self.prereqs);
        self.tokens
    }
}

} // verus!
