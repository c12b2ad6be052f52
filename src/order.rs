//! Lexicographic order on byte strings and on pairs of them, and a sort of
//! encoded parameter pairs under that order.
use vstd::prelude::*;
use vstd::multiset::Multiset;
use vstd::relations::{sorted_by, total_ordering};

verus! {

broadcast use vstd::seq_lib::group_to_multiset_ensures;

/// Byte-wise lexicographic order: `a <= b`.
pub open spec fn bytes_le(a: Seq<u8>, b: Seq<u8>) -> bool
    decreases a.len(),
{
    if a.len() == 0 {
        true
    } else if b.len() == 0 {
        false
    } else if a[0] != b[0] {
        a[0] < b[0]
    } else {
        bytes_le(a.drop_first(), b.drop_first())
    }
}

/// Order on (name, value) pairs: by name, then by value.
pub open spec fn pair_le(x: (Seq<u8>, Seq<u8>), y: (Seq<u8>, Seq<u8>)) -> bool {
    if x.0 == y.0 {
        bytes_le(x.1, y.1)
    } else {
        bytes_le(x.0, y.0)
    }
}

/// `pair_le` as a relation value.
pub open spec fn pair_order() -> spec_fn((Seq<u8>, Seq<u8>), (Seq<u8>, Seq<u8>)) -> bool {
    |x: (Seq<u8>, Seq<u8>), y: (Seq<u8>, Seq<u8>)| pair_le(x, y)
}

proof fn lemma_bytes_le_reflexive(a: Seq<u8>)
    ensures
        bytes_le(a, a),
    decreases a.len(),
{
    if a.len() > 0 {
        lemma_bytes_le_reflexive(a.drop_first());
    }
}

proof fn lemma_bytes_le_antisymmetric(a: Seq<u8>, b: Seq<u8>)
    requires
        bytes_le(a, b),
        bytes_le(b, a),
    ensures
        a == b,
    decreases a.len(),
{
    if a.len() > 0 {
        lemma_bytes_le_antisymmetric(a.drop_first(), b.drop_first());
        assert(a =~= seq![a[0]] + a.drop_first());
        assert(b =~= seq![b[0]] + b.drop_first());
    }
}

proof fn lemma_bytes_le_transitive(a: Seq<u8>, b: Seq<u8>, c: Seq<u8>)
    requires
        bytes_le(a, b),
        bytes_le(b, c),
    ensures
        bytes_le(a, c),
    decreases a.len(),
{
    if a.len() > 0 && b.len() > 0 && c.len() > 0 && a[0] == b[0] && b[0] == c[0] {
        lemma_bytes_le_transitive(a.drop_first(), b.drop_first(), c.drop_first());
    }
}

proof fn lemma_bytes_le_connected(a: Seq<u8>, b: Seq<u8>)
    ensures
        bytes_le(a, b) || bytes_le(b, a),
    decreases a.len(),
{
    if a.len() > 0 && b.len() > 0 && a[0] == b[0] {
        lemma_bytes_le_connected(a.drop_first(), b.drop_first());
    }
}

/// The pair order is a total order.
pub proof fn lemma_pair_order_total()
    ensures
        total_ordering(pair_order()),
{
    assert forall|x: (Seq<u8>, Seq<u8>)| #[trigger] pair_order()(x, x) by {
        lemma_bytes_le_reflexive(x.1);
    }
    assert forall|x: (Seq<u8>, Seq<u8>), y: (Seq<u8>, Seq<u8>)|
        #[trigger] pair_order()(x, y) && #[trigger] pair_order()(y, x) implies x == y by {
        if x.0 == y.0 {
            lemma_bytes_le_antisymmetric(x.1, y.1);
        } else {
            lemma_bytes_le_antisymmetric(x.0, y.0);
        }
    }
    assert forall|x: (Seq<u8>, Seq<u8>), y: (Seq<u8>, Seq<u8>), z: (Seq<u8>, Seq<u8>)|
        #[trigger] pair_order()(x, y) && #[trigger] pair_order()(y, z) implies pair_order()(
        x,
        z,
    ) by {
        if x.0 == y.0 && y.0 == z.0 {
            lemma_bytes_le_transitive(x.1, y.1, z.1);
        } else if x.0 == y.0 || y.0 == z.0 {
        } else {
            lemma_bytes_le_transitive(x.0, y.0, z.0);
            if x.0 == z.0 {
                lemma_bytes_le_antisymmetric(x.0, y.0);
            }
        }
    }
    assert forall|x: (Seq<u8>, Seq<u8>), y: (Seq<u8>, Seq<u8>)|
        #[trigger] pair_order()(x, y) || #[trigger] pair_order()(y, x) by {
        lemma_bytes_le_connected(x.0, y.0);
        lemma_bytes_le_connected(x.1, y.1);
    }
}

/// Byte-wise lexicographic comparison `a <= b`.
pub fn bytes_le_exec(a: &[u8], b: &[u8]) -> (r: bool)
    ensures
        r == bytes_le(a@, b@),
{
    let mut i: usize = 0;
    assert(a@.skip(0) =~= a@);
    assert(b@.skip(0) =~= b@);
    while i < a.len() && i < b.len() && a[i] == b[i]
        invariant
            i <= a@.len(),
            i <= b@.len(),
            bytes_le(a@, b@) == bytes_le(a@.skip(i as int), b@.skip(i as int)),
        decreases a@.len() - i,
    {
        assert(a@.skip(i as int).drop_first() =~= a@.skip(i + 1));
        assert(b@.skip(i as int).drop_first() =~= b@.skip(i + 1));
        i = i + 1;
    }
    if i == a.len() {
        true
    } else if i == b.len() {
        false
    } else {
        a[i] < b[i]
    }
}

/// The view of a vector of owned pairs.
pub open spec fn pairs_view(v: Seq<(Vec<u8>, Vec<u8>)>) -> Seq<(Seq<u8>, Seq<u8>)> {
    v.map_values(|p: (Vec<u8>, Vec<u8>)| (p.0@, p.1@))
}

fn pair_le_exec(x: &(Vec<u8>, Vec<u8>), y: &(Vec<u8>, Vec<u8>)) -> (r: bool)
    ensures
        r == pair_le((x.0@, x.1@), (y.0@, y.1@)),
{
    let name_le = bytes_le_exec(x.0.as_slice(), y.0.as_slice());
    let name_ge = bytes_le_exec(y.0.as_slice(), x.0.as_slice());
    proof {
        if name_le && name_ge {
            lemma_bytes_le_antisymmetric(x.0@, y.0@);
        }
        if x.0@ == y.0@ {
            lemma_bytes_le_reflexive(x.0@);
        }
    }
    if name_le && name_ge {
        bytes_le_exec(x.1.as_slice(), y.1.as_slice())
    } else {
        name_le
    }
}

/// Sorts pairs by `pair_le` (by name, then by value); the result is the
/// unique sorted arrangement of the same pairs.
pub fn sort_pairs(items: Vec<(Vec<u8>, Vec<u8>)>) -> (r: Vec<(Vec<u8>, Vec<u8>)>)
    ensures
        pairs_view(r@) == pairs_view(items@).sort_by(pair_order()),
{
    proof {
        lemma_pair_order_total();
    }
    let ghost src = pairs_view(items@);
    let mut out: Vec<(Vec<u8>, Vec<u8>)> = Vec::new();
    let mut rest = items;
    let ghost whole = src;
    while rest.len() > 0
        invariant
            total_ordering(pair_order()),
            sorted_by(pairs_view(out@), pair_order()),
            pairs_view(out@).to_multiset().add(pairs_view(rest@).to_multiset()) == whole.to_multiset(),
        decreases rest@.len(),
    {
        let ghost before = pairs_view(out@);
        let ghost rest_before = pairs_view(rest@);
        let e = rest.remove(0);
        let ghost ev = (e.0@, e.1@);
        assert(rest_before =~= pairs_view(rest@).insert(0, ev));
        let mut j: usize = 0;
        let mut found = false;
        while !found && j < out.len()
            invariant
                j <= out@.len(),
                pairs_view(out@) == before,
                ev == (e.0@, e.1@),
                forall|k: int| 0 <= k < j ==> pair_le(#[trigger] before[k], ev),
                found ==> j < out@.len() && !pair_le(before[j as int], ev),
            decreases out@.len() - j + (if found { 0int } else { 1int }),
        {
            assert(before[j as int] == (out@[j as int].0@, out@[j as int].1@));
            let le = pair_le_exec(&out[j], &e);
            if le {
                j = j + 1;
            } else {
                found = true;
            }
        }
        proof {
            if j < out@.len() {
                assert(pair_order()(before[j as int], ev) || pair_order()(ev, before[j as int]));
            }
        }
        out.insert(j, e);
        proof {
            let after = pairs_view(out@);
            assert(after =~= before.insert(j as int, ev));
            assert forall|a: int, b: int| 0 <= a < b < after.len() implies #[trigger] pair_order()(
                after[a],
                after[b],
            ) by {
                if b < j {
                } else if a < j && b == j {
                } else if a < j {
                    assert(pair_order()(before[a], before[b - 1]));
                } else if a == j {
                    if b - 1 > j {
                        assert(pair_order()(before[j as int], before[b - 1]));
                    }
                } else {
                    assert(pair_order()(before[a - 1], before[b - 1]));
                }
            }
            vstd::seq_lib::to_multiset_insert(before, j as int, ev);
            vstd::seq_lib::to_multiset_insert(pairs_view(rest@), 0, ev);
            assert(after.to_multiset().add(pairs_view(rest@).to_multiset()) =~= before.to_multiset().add(
                rest_before.to_multiset(),
            ));
        }
    }
    proof {
        assert(pairs_view(rest@).to_multiset() =~= Multiset::empty());
        assert(pairs_view(out@).to_multiset() =~= src.to_multiset());
        src.lemma_sort_by_ensures(pair_order());
        vstd::seq_lib::lemma_sorted_unique(pairs_view(out@), src.sort_by(pair_order()), pair_order());
    }
    out
}

} // verus!
