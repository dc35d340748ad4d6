//! Node types in the order of their names.

use crate::graph::lemma_names_distinct;
use crate::graph::NodeType;
use crate::text::lemma_lex_le_antisymmetric;
use crate::text::lemma_lex_le_reflexive;
use crate::text::lemma_lex_le_total;
use crate::text::lemma_lex_le_transitive;
use crate::text::lex_le;
use crate::text::str_le;
use vstd::prelude::*;
use vstd::relations::sorted_by;
use vstd::relations::total_ordering;

verus! {

/// The name of `a` comes no later than the name of `b`.
pub open spec fn name_le(a: NodeType, b: NodeType) -> bool {
    lex_le(a.spec_name(), b.spec_name())
}

/// The order of names, as a relation.
pub open spec fn by_name() -> spec_fn(NodeType, NodeType) -> bool {
    |a: NodeType, b: NodeType| name_le(a, b)
}

/// Each item's name comes no later than the names of the items after it.
pub open spec fn sorted_by_name(s: Seq<NodeType>) -> bool {
    sorted_by(s, by_name())
}

/// Sorted by name, and no type twice.
pub open spec fn strictly_sorted_by_name(s: Seq<NodeType>) -> bool {
    forall|i: int, j: int|
        #![trigger s[i], s[j]]
        0 <= i < j < s.len() ==> name_le(s[i], s[j]) && s[i] != s[j]
}

/// The order of names is a total order of the node types.
pub proof fn lemma_by_name_total_ordering()
    ensures
        total_ordering(by_name()),
{
    let r = by_name();
    assert forall|x: NodeType| #[trigger] r(x, x) by {
        lemma_lex_le_reflexive(x.spec_name());
    }
    assert forall|x: NodeType, y: NodeType| #[trigger] r(x, y) && #[trigger] r(y, x) implies x
        == y by {
        lemma_lex_le_antisymmetric(x.spec_name(), y.spec_name());
        lemma_names_distinct(x, y);
    }
    assert forall|x: NodeType, y: NodeType, z: NodeType| #[trigger]
        r(x, y) && #[trigger] r(y, z) implies r(x, z) by {
        lemma_lex_le_transitive(x.spec_name(), y.spec_name(), z.spec_name());
    }
    assert forall|x: NodeType, y: NodeType| #[trigger] r(x, y) || #[trigger] r(y, x) by {
        lemma_lex_le_total(x.spec_name(), y.spec_name());
    }
}

/// The items of `c` in the order of their names.
pub fn sort_by_string(c: Vec<NodeType>) -> (v: Vec<NodeType>)
    ensures
        sorted_by_name(v@),
        v@.to_multiset() == c@.to_multiset(),
{
    let mut v: Vec<NodeType> = Vec::new();
    let mut i: usize = 0;
    proof {
        lemma_by_name_total_ordering();
        assert(c@.take(0) =~= Seq::<NodeType>::empty());
        assert(v@ =~= c@.take(0));
    }
    while i < c.len()
        invariant
            i <= c.len(),
            sorted_by_name(v@),
            v@.to_multiset() == c@.take(i as int).to_multiset(),
            v.len() == i,
            total_ordering(by_name()),
        decreases c.len() - i,
    {
        let x = c[i];
        let mut p: usize = v.len();
        while p > 0 && !str_le(v[p - 1].name(), x.name())
            invariant
                p <= v.len(),
                forall|j: int| p <= j < v.len() ==> !name_le(#[trigger] v@[j], x),
            decreases p,
        {
            p = p - 1;
        }
        let ghost before = v@;
        v.insert(p, x);
        proof {
            before.insert_ensures(p as int, x);
            vstd::seq_lib::to_multiset_insert(before, p as int, x);
            assert(c@.take(i + 1) =~= c@.take(i as int).push(x));
            vstd::seq_lib::to_multiset_build(c@.take(i as int), x);
            let r = by_name();
            assert forall|a: int, b: int| 0 <= a < b < v@.len() implies #[trigger] r(
                v@[a],
                v@[b],
            ) by {
                if b < p {
                    assert(r(before[a], before[b]));
                } else if b == p {
                    assert(r(before[p - 1], x));
                    if a < p - 1 {
                        assert(r(before[a], before[p - 1]));
                    }
                } else if a == p {
                    assert(!name_le(before[b - 1], x));
                    assert(r(before[b - 1], x) || r(x, before[b - 1]));
                } else if a < p {
                    assert(r(before[a], before[b - 1]));
                } else {
                    assert(r(before[a - 1], before[b - 1]));
                }
            }
        }
        i = i + 1;
    }
    proof {
        assert(c@.take(c.len() as int) =~= c@);
    }
    v
}

/// Pushing an item onto a list adds it to the set of the list's items.
proof fn lemma_push_to_set(s: Seq<NodeType>, x: NodeType)
    ensures
        s.push(x).to_set() == s.to_set().insert(x),
{
    let t = s.push(x);
    assert forall|e: NodeType| t.to_set().contains(e) <==> s.to_set().insert(x).contains(e) by {
        if t.contains(e) {
            let k = choose|k: int| 0 <= k < t.len() && t[k] == e;
            if k < s.len() {
                assert(s[k] == e);
                assert(s.contains(e));
            }
        }
        if s.contains(e) {
            let k = choose|k: int| 0 <= k < s.len() && s[k] == e;
            assert(t[k] == e);
        }
        if e == x {
            assert(t[s.len() as int] == e);
        }
    }
    assert(t.to_set() =~= s.to_set().insert(x));
}

/// The items of a sorted `v` without repetition.
pub fn dedup_sorted(v: Vec<NodeType>) -> (out: Vec<NodeType>)
    requires
        sorted_by_name(v@),
    ensures
        strictly_sorted_by_name(out@),
        out@.to_set() == v@.to_set(),
{
    let mut out: Vec<NodeType> = Vec::new();
    let mut i: usize = 0;
    proof {
        lemma_by_name_total_ordering();
        assert(out@.to_set() =~= v@.take(0).to_set());
    }
    while i < v.len()
        invariant
            i <= v.len(),
            sorted_by_name(v@),
            total_ordering(by_name()),
            strictly_sorted_by_name(out@),
            out@.to_set() == v@.take(i as int).to_set(),
            i > 0 ==> out.len() > 0 && out@.last() == v@[i - 1],
            i == 0 ==> out.len() == 0,
        decreases v.len() - i,
    {
        let x = v[i];
        let ghost before = out@;
        let ghost r = by_name();
        let ghost seen = v@.take(i as int);
        proof {
            assert(v@.take(i + 1) =~= seen.push(x));
            lemma_push_to_set(seen, x);
        }
        if i == 0 || out[out.len() - 1] != x {
            out.push(x);
            proof {
                lemma_push_to_set(before, x);
                assert forall|a: int, b: int| 0 <= a < b < out@.len() implies name_le(
                    out@[a],
                    out@[b],
                ) && out@[a] != out@[b] by {
                    if b == before.len() {
                        let last = before[before.len() - 1];
                        assert(r(v@[i - 1], v@[i as int]));
                        if a < before.len() - 1 {
                            assert(r(before[a], last) && r(last, x) ==> r(before[a], x));
                            assert(r(x, last) && r(last, x) ==> x == last);
                        }
                    } else {
                        assert(out@[a] == before[a] && out@[b] == before[b]);
                    }
                }
            }
        } else {
            proof {
                assert(before.contains(before.last()));
                assert(before.to_set().contains(x));
                assert(before.to_set().insert(x) =~= before.to_set());
            }
        }
        i = i + 1;
    }
    proof {
        assert(v@.take(v.len() as int) =~= v@);
    }
    out
}

/// Two lists of types that are sorted by name without repetition and hold
/// the same types are the same list: the order of a report's types does
/// not depend on the order in which they were given.
pub proof fn lemma_sorted_types_unique(x: Seq<NodeType>, y: Seq<NodeType>)
    requires
        strictly_sorted_by_name(x),
        strictly_sorted_by_name(y),
        x.to_set() == y.to_set(),
    ensures
        x == y,
    decreases x.len(),
{
    lemma_by_name_total_ordering();
    let r = by_name();
    if x.len() == 0 {
        if y.len() > 0 {
            assert(y.contains(y[0]));
            assert(y.to_set().contains(y[0]));
            assert(x.contains(y[0]));
        }
        assert(x =~= y);
    } else if y.len() == 0 {
        assert(x.contains(x[0]));
        assert(x.to_set().contains(x[0]));
        assert(y.contains(x[0]));
    } else {
        assert(x.contains(x[0]));
        assert(y.contains(y[0]));
        assert(x.to_set().contains(y[0]));
        assert(y.to_set().contains(x[0]));
        let i = choose|i: int| 0 <= i < x.len() && x[i] == y[0];
        let j = choose|j: int| 0 <= j < y.len() && y[j] == x[0];
        assert(r(x[0], x[i]) || i == 0);
        assert(r(y[0], y[j]) || j == 0);
        assert(r(x[0], y[0]) && r(y[0], x[0]) ==> x[0] == y[0]);
        assert(x[0] == y[0]);
        let xs = x.drop_first();
        let ys = y.drop_first();
        assert forall|e: NodeType| xs.to_set().contains(e) <==> ys.to_set().contains(e) by {
            if xs.contains(e) {
                let k = choose|k: int| 0 <= k < xs.len() && xs[k] == e;
                assert(x[k + 1] == e);
                assert(x.contains(e));
                assert(y.to_set().contains(e));
                let m = choose|m: int| 0 <= m < y.len() && y[m] == e;
                assert(m != 0);
                assert(ys[m - 1] == e);
            }
            if ys.contains(e) {
                let k = choose|k: int| 0 <= k < ys.len() && ys[k] == e;
                assert(y[k + 1] == e);
                assert(y.contains(e));
                assert(x.to_set().contains(e));
                let m = choose|m: int| 0 <= m < x.len() && x[m] == e;
                assert(m != 0);
                assert(xs[m - 1] == e);
            }
        }
        assert(xs.to_set() =~= ys.to_set());
        assert forall|a: int, b: int| 0 <= a < b < xs.len() implies name_le(xs[a], xs[b])
            && xs[a] != xs[b] by {
            assert(xs[a] == x[a + 1] && xs[b] == x[b + 1]);
        }
        assert forall|a: int, b: int| 0 <= a < b < ys.len() implies name_le(ys[a], ys[b])
            && ys[a] != ys[b] by {
            assert(ys[a] == y[a + 1] && ys[b] == y[b + 1]);
        }
        lemma_sorted_types_unique(xs, ys);
        assert(x =~= seq![x[0]] + xs);
        assert(y =~= seq![y[0]] + ys);
    }
}

} // verus!
