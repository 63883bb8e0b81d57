//! Which packages a run checks, and in which order: the root package of a
//! single-package manifest, or every workspace member ordered by name.
use vstd::prelude::*;
use crate::model::Metadata;
use crate::text::{lex_le, lex_lt, lemma_lex_le_antisymmetric, lemma_lex_le_reflexive, lemma_lex_le_total, lemma_lex_le_transitive, str_le};

verus! {

/// The run covers a whole workspace: the manifest that was read is a virtual
/// workspace, with no root package.
pub open spec fn is_workspace_mode(m: Metadata) -> bool {
    m.root is None
}

/// The name of the workspace member at position `p` of `m.members`.
pub open spec fn member_name(m: Metadata, p: int) -> Seq<char> {
    m.packages@[m.members@[p] as int].name@
}

/// Member position `p` comes before `q`: its name is smaller, or the names
/// are equal and it comes first in the member list (the order of a stable
/// sort by name).
pub open spec fn member_before(m: Metadata, p: int, q: int) -> bool {
    lex_lt(member_name(m, p), member_name(m, q)) || (member_name(m, p) == member_name(m, q) && p < q)
}

/// `perm` lists each member position exactly once, in `member_before` order.
pub open spec fn is_name_order(m: Metadata, perm: Seq<int>) -> bool {
    &&& perm.len() == m.members@.len()
    &&& forall|i: int| 0 <= i < perm.len() ==> 0 <= #[trigger] perm[i] < m.members@.len()
    &&& forall|p: int| 0 <= p < m.members@.len() ==> #[trigger] perm.contains(p)
    &&& forall|i: int, j: int| 0 <= i < j < perm.len() ==> member_before(m, #[trigger] perm[i], #[trigger] perm[j])
}

/// `order` is the workspace members sorted by name with a stable sort.
pub open spec fn is_members_by_name(m: Metadata, order: Seq<usize>) -> bool {
    exists|perm: Seq<int>|
        #[trigger] is_name_order(m, perm) && order.len() == perm.len()
            && forall|i: int| 0 <= i < order.len() ==> #[trigger] order[i] == m.members@[perm[i]]
}

proof fn lemma_lt_le_lt(a: Seq<char>, b: Seq<char>, c: Seq<char>)
    requires
        lex_lt(a, b),
        lex_le(b, c),
    ensures
        lex_lt(a, c),
{
    lemma_lex_le_transitive(a, b, c);
    if a == c {
        lemma_lex_le_antisymmetric(a, b);
    }
}

/// The workspace members, sorted by package name. A stable sort: members
/// with equal names keep their order.
pub fn members_by_name(m: &Metadata) -> (order: Vec<usize>)
    requires
        m.wf(),
    ensures
        is_members_by_name(*m, order@),
{
    let count = m.members.len();
    let mut perm: Vec<usize> = Vec::new();
    for k in 0..count
        invariant
            count == m.members@.len(),
            m.wf(),
            perm@.len() == k,
            forall|i: int| 0 <= i < perm@.len() ==> #[trigger] perm@[i] < k,
            forall|p: int| 0 <= p < k ==> #[trigger] perm@.contains(p as usize),
            forall|i: int, j: int| 0 <= i < j < perm@.len() ==> member_before(*m, #[trigger] perm@[i] as int, #[trigger] perm@[j] as int),
    {
        let name_k = m.packages[m.members[k]].name.as_str();
        let mut q: usize = 0;
        while q < perm.len() && str_le(m.packages[m.members[perm[q]]].name.as_str(), name_k)
            invariant
                count == m.members@.len(),
                m.wf(),
                k < count,
                q <= perm@.len(),
                forall|i: int| 0 <= i < perm@.len() ==> #[trigger] perm@[i] < k,
                name_k@ == member_name(*m, k as int),
                forall|i: int| 0 <= i < q ==> lex_le(member_name(*m, #[trigger] perm@[i] as int), member_name(*m, k as int)),
            decreases perm@.len() - q,
        {
            q = q + 1;
        }
        proof {
            if q < perm@.len() {
                let nq = member_name(*m, perm@[q as int] as int);
                let nk = member_name(*m, k as int);
                assert(!lex_le(nq, nk));
                lemma_lex_le_total(nq, nk);
                assert(lex_lt(nk, nq));
                assert forall|j: int| q <= j < perm@.len() implies lex_lt(nk, member_name(*m, #[trigger] perm@[j] as int)) by {
                    if j > q {
                        let nj = member_name(*m, perm@[j] as int);
                        assert(member_before(*m, perm@[q as int] as int, perm@[j] as int));
                        if lex_lt(nq, nj) {
                        } else {
                            lemma_lex_le_reflexive(nq);
                        }
                        lemma_lt_le_lt(nk, nq, nj);
                    }
                }
            }
        }
        let ghost old_perm = perm@;
        perm.insert(q, k);
        proof {
            assert forall|i: int| 0 <= i < perm@.len() implies #[trigger] perm@[i] < k + 1 by {
                if i < q {
                    assert(perm@[i] == old_perm[i]);
                } else if i > q {
                    assert(perm@[i] == old_perm[i - 1]);
                }
            }
            assert forall|p: int| 0 <= p < k + 1 implies #[trigger] perm@.contains(p as usize) by {
                if p == k {
                    assert(perm@[q as int] == k);
                } else {
                    assert(old_perm.contains(p as usize));
                    let i = choose|i: int| 0 <= i < old_perm.len() && old_perm[i] == p as usize;
                    if i < q {
                        assert(perm@[i] == old_perm[i]);
                    } else {
                        assert(perm@[i + 1] == old_perm[i]);
                    }
                }
            }
            assert forall|i: int, j: int| 0 <= i < j < perm@.len() implies member_before(
                *m,
                #[trigger] perm@[i] as int,
                #[trigger] perm@[j] as int,
            ) by {
                if j < q {
                    assert(perm@[i] == old_perm[i]);
                    assert(perm@[j] == old_perm[j]);
                } else if j == q {
                    assert(perm@[i] == old_perm[i]);
                    let ni = member_name(*m, perm@[i] as int);
                    let nk = member_name(*m, k as int);
                    assert(lex_le(ni, nk));
                } else if i < q {
                    assert(perm@[i] == old_perm[i]);
                    assert(perm@[j] == old_perm[j - 1]);
                } else if i == q {
                    assert(perm@[j] == old_perm[j - 1]);
                } else {
                    assert(perm@[i] == old_perm[i - 1]);
                    assert(perm@[j] == old_perm[j - 1]);
                }
            }
        }
    }
    let mut order: Vec<usize> = Vec::new();
    let n = perm.len();
    for i in 0..n
        invariant
            n == perm@.len(),
            count == m.members@.len(),
            forall|x: int| 0 <= x < perm@.len() ==> #[trigger] perm@[x] < count,
            order@.len() == i,
            forall|x: int| 0 <= x < i ==> #[trigger] order@[x] == m.members@[perm@[x] as int],
    {
        order.push(m.members[perm[i]]);
    }
    proof {
        let p = perm@.map_values(|x: usize| x as int);
        assert forall|x: int| 0 <= x < m.members@.len() implies #[trigger] p.contains(x) by {
            assert(perm@.contains(x as usize));
            let i = choose|i: int| 0 <= i < perm@.len() && perm@[i] == x as usize;
            assert(p[i] == x);
        }
        assert forall|i: int, j: int| 0 <= i < j < p.len() implies member_before(*m, #[trigger] p[i], #[trigger] p[j]) by {
            assert(member_before(*m, perm@[i] as int, perm@[j] as int));
        }
        assert(is_name_order(*m, p));
    }
    order
}


proof fn lemma_member_before_asymmetric(m: Metadata, p: int, q: int)
    requires
        member_before(m, p, q),
    ensures
        !member_before(m, q, p),
{
    let a = member_name(m, p);
    let b = member_name(m, q);
    if lex_lt(a, b) && lex_lt(b, a) {
        lemma_lex_le_antisymmetric(a, b);
    }
}

proof fn lemma_sorted_same_elements_equal(m: Metadata, a: Seq<int>, b: Seq<int>)
    requires
        forall|i: int, j: int| 0 <= i < j < a.len() ==> member_before(m, #[trigger] a[i], #[trigger] a[j]),
        forall|i: int, j: int| 0 <= i < j < b.len() ==> member_before(m, #[trigger] b[i], #[trigger] b[j]),
        forall|x: int| a.contains(x) <==> b.contains(x),
    ensures
        a == b,
    decreases a.len(),
{
    if a.len() == 0 {
        if b.len() > 0 {
            assert(b.contains(b[0]));
        }
        assert(a =~= b);
    } else {
        assert(a.contains(a[0]));
        assert(b.len() > 0);
        assert(b.contains(b[0]));
        let k = choose|k: int| 0 <= k < b.len() && b[k] == a[0];
        let l = choose|l: int| 0 <= l < a.len() && a[l] == b[0];
        if k > 0 && l > 0 {
            assert(member_before(m, b[0], b[k]));
            assert(member_before(m, a[0], a[l]));
            lemma_member_before_asymmetric(m, b[0], a[0]);
        }
        assert(a[0] == b[0]);
        let a1 = a.drop_first();
        let b1 = b.drop_first();
        assert forall|x: int| a1.contains(x) <==> b1.contains(x) by {
            if a1.contains(x) {
                let i = choose|i: int| 0 <= i < a1.len() && a1[i] == x;
                assert(a[i + 1] == x);
                assert(member_before(m, a[0], a[i + 1]));
                if x == a[0] {
                    lemma_member_before_asymmetric(m, x, x);
                }
                assert(a.contains(x));
                assert(b.contains(x));
                let j = choose|j: int| 0 <= j < b.len() && b[j] == x;
                assert(j != 0);
                assert(b1[j - 1] == x);
            }
            if b1.contains(x) {
                let i = choose|i: int| 0 <= i < b1.len() && b1[i] == x;
                assert(b[i + 1] == x);
                assert(member_before(m, b[0], b[i + 1]));
                if x == b[0] {
                    lemma_member_before_asymmetric(m, x, x);
                }
                assert(b.contains(x));
                assert(a.contains(x));
                let j = choose|j: int| 0 <= j < a.len() && a[j] == x;
                assert(j != 0);
                assert(a1[j - 1] == x);
            }
        }
        assert forall|i: int, j: int| 0 <= i < j < a1.len() implies member_before(m, #[trigger] a1[i], #[trigger] a1[j]) by {
            assert(member_before(m, a[i + 1], a[j + 1]));
        }
        assert forall|i: int, j: int| 0 <= i < j < b1.len() implies member_before(m, #[trigger] b1[i], #[trigger] b1[j]) by {
            assert(member_before(m, b[i + 1], b[j + 1]));
        }
        lemma_sorted_same_elements_equal(m, a1, b1);
        assert forall|i: int| 0 <= i < a.len() implies a[i] == b[i] by {
            if i > 0 {
                assert(a[i] == a1[i - 1]);
                assert(b[i] == b1[i - 1]);
            }
        }
        assert(a =~= b);
    }
}

/// The order in which a workspace is checked is fully determined: two
/// orderings of the members by name (stable sort) are the same ordering.
pub proof fn law_members_by_name_is_unique(m: Metadata, o1: Seq<usize>, o2: Seq<usize>)
    requires
        is_members_by_name(m, o1),
        is_members_by_name(m, o2),
    ensures
        o1 == o2,
{
    let p1 = choose|perm: Seq<int>|
        #[trigger] is_name_order(m, perm) && o1.len() == perm.len()
            && forall|i: int| 0 <= i < o1.len() ==> #[trigger] o1[i] == m.members@[perm[i]];
    let p2 = choose|perm: Seq<int>|
        #[trigger] is_name_order(m, perm) && o2.len() == perm.len()
            && forall|i: int| 0 <= i < o2.len() ==> #[trigger] o2[i] == m.members@[perm[i]];
    assert forall|x: int| p1.contains(x) <==> p2.contains(x) by {
        if p1.contains(x) {
            let i = choose|i: int| 0 <= i < p1.len() && p1[i] == x;
            assert(0 <= p1[i] < m.members@.len());
        }
        if p2.contains(x) {
            let i = choose|i: int| 0 <= i < p2.len() && p2[i] == x;
            assert(0 <= p2[i] < m.members@.len());
        }
    }
    lemma_sorted_same_elements_equal(m, p1, p2);
    assert(o1 =~= o2);
}

/// A workspace is checked member by member in order of package name, each
/// member once.
pub proof fn law_members_by_name_sorted(m: Metadata, order: Seq<usize>)
    requires
        is_members_by_name(m, order),
    ensures
        order.len() == m.members@.len(),
        forall|p: int| 0 <= p < m.members@.len() ==> order.contains(#[trigger] m.members@[p]),
        forall|i: int, j: int| 0 <= i < j < order.len() ==> lex_le(
            m.packages@[#[trigger] order[i] as int].name@,
            m.packages@[#[trigger] order[j] as int].name@,
        ),
{
    let perm = choose|perm: Seq<int>|
        #[trigger] is_name_order(m, perm) && order.len() == perm.len()
            && forall|i: int| 0 <= i < order.len() ==> #[trigger] order[i] == m.members@[perm[i]];
    assert forall|p: int| 0 <= p < m.members@.len() implies order.contains(#[trigger] m.members@[p]) by {
        assert(perm.contains(p));
        let i = choose|i: int| 0 <= i < perm.len() && perm[i] == p;
        assert(order[i] == m.members@[p]);
    }
    assert forall|i: int, j: int| 0 <= i < j < order.len() implies lex_le(
        m.packages@[#[trigger] order[i] as int].name@,
        m.packages@[#[trigger] order[j] as int].name@,
    ) by {
        assert(member_before(m, perm[i], perm[j]));
        if !lex_lt(member_name(m, perm[i]), member_name(m, perm[j])) {
            lemma_lex_le_reflexive(member_name(m, perm[i]));
        }
    }
}

} // verus!
