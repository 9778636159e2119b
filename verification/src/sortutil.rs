//! A verified stable insertion sort over byte-string keys, shared by the
//! collectors for their canonical output orders.

use vstd::prelude::*;

verus! {

/// Lexicographic order on byte sequences.
pub open spec fn lex_le(a: Seq<u8>, b: Seq<u8>) -> bool
    decreases a.len(),
{
    if a.len() == 0 {
        true
    } else if b.len() == 0 {
        false
    } else if a.first() < b.first() {
        true
    } else if a.first() > b.first() {
        false
    } else {
        lex_le(a.drop_first(), b.drop_first())
    }
}

/// The order is total.
pub proof fn lemma_lex_total(a: Seq<u8>, b: Seq<u8>)
    ensures
        lex_le(a, b) || lex_le(b, a),
    decreases a.len(),
{
    if a.len() > 0 && b.len() > 0 && a.first() == b.first() {
        lemma_lex_total(a.drop_first(), b.drop_first());
    }
}

/// The order is transitive.
pub proof fn lemma_lex_trans(a: Seq<u8>, b: Seq<u8>, c: Seq<u8>)
    requires
        lex_le(a, b),
        lex_le(b, c),
    ensures
        lex_le(a, c),
    decreases a.len(),
{
    if a.len() > 0 && b.len() > 0 && c.len() > 0 && a.first() == b.first() && b.first()
        == c.first() {
        lemma_lex_trans(a.drop_first(), b.drop_first(), c.drop_first());
    }
}

/// Equal prefixes do not affect the order of the rest.
proof fn lemma_lex_skip(a: Seq<u8>, b: Seq<u8>, i: int)
    requires
        0 <= i <= a.len(),
        i <= b.len(),
        forall|k: int| 0 <= k < i ==> a[k] == b[k],
    ensures
        lex_le(a, b) == lex_le(a.skip(i), b.skip(i)),
    decreases i,
{
    if i > 0 {
        assert(a.len() > 0 && b.len() > 0 && a.first() == b.first());
        lemma_lex_skip(a.drop_first(), b.drop_first(), i - 1);
        assert(a.drop_first().skip(i - 1) =~= a.skip(i));
        assert(b.drop_first().skip(i - 1) =~= b.skip(i));
    } else {
        assert(a.skip(0) =~= a);
        assert(b.skip(0) =~= b);
    }
}

/// Exec counterpart of [`lex_le`].
pub fn lex_le_bytes(a: &[u8], b: &[u8]) -> (r: bool)
    ensures
        r == lex_le(a@, b@),
{
    let na = a.len();
    let nb = b.len();
    let m = if na < nb {
        na
    } else {
        nb
    };
    for i in 0..m
        invariant
            m <= na == a@.len(),
            m <= nb == b@.len(),
            forall|k: int| 0 <= k < i ==> a@[k] == b@[k],
    {
        if a[i] < b[i] {
            proof {
                lemma_lex_skip(a@, b@, i as int);
            }
            return true;
        }
        if a[i] > b[i] {
            proof {
                lemma_lex_skip(a@, b@, i as int);
            }
            return false;
        }
    }
    proof {
        lemma_lex_skip(a@, b@, m as int);
        if na <= nb {
            assert(a@.skip(m as int) =~= Seq::<u8>::empty());
        } else {
            assert(b@.skip(m as int) =~= Seq::<u8>::empty());
            assert(a@.skip(m as int).len() > 0);
        }
    }
    na <= nb
}

/// Every key in `s` is at most every later key.
pub open spec fn keys_sorted<T>(s: Seq<(Vec<u8>, T)>) -> bool {
    forall|i: int, j: int|
        0 <= i <= j < s.len() ==> lex_le(#[trigger] s[i].0@, #[trigger] s[j].0@)
}

/// Sorts key-value pairs by key, keeping the collection of pairs.  The
/// sort is an insertion sort, stable over equal keys.
#[verifier::loop_isolation(false)]
pub fn sort_keyed<T>(items: Vec<(Vec<u8>, T)>) -> (r: Vec<(Vec<u8>, T)>)
    ensures
        keys_sorted(r@),
        r@.to_multiset() == items@.to_multiset(),
{
    broadcast use vstd::seq_lib::group_to_multiset_ensures;

    let ghost orig = items@;
    let mut rest = items;
    let mut out: Vec<(Vec<u8>, T)> = Vec::new();
    while rest.len() > 0
        invariant
            keys_sorted(out@),
            out@.to_multiset().add(rest@.to_multiset()) == orig.to_multiset(),
        decreases rest@.len(),
    {
        let ghost rest_before = rest@;
        let it = rest.remove(0);
        proof {
            assert(rest_before.remove(0).to_multiset() =~= rest_before.to_multiset().remove(
                rest_before[0],
            ));
        }
        let mut pos: usize = 0;
        while pos < out.len() && lex_le_bytes(out[pos].0.as_slice(), it.0.as_slice())
            invariant
                pos <= out@.len(),
                forall|k: int| 0 <= k < pos ==> lex_le(#[trigger] out@[k].0@, it.0@),
            decreases out@.len() - pos,
        {
            pos = pos + 1;
        }
        proof {
            if pos < out@.len() {
                lemma_lex_total(out@[pos as int].0@, it.0@);
            }
        }
        let ghost out_before = out@;
        out.insert(pos, it);
        proof {
            assert forall|i: int, j: int| 0 <= i <= j < out@.len() implies lex_le(
                #[trigger] out@[i].0@,
                #[trigger] out@[j].0@,
            ) by {
                let p = pos as int;
                if i < p && j == p {
                } else if i == p && j > p {
                    lemma_lex_trans(out@[p].0@, out_before[p].0@, out_before[j - 1].0@);
                } else if i < p && j > p {
                } else if i == p && j == p {
                    lemma_lex_total(out@[p].0@, out@[p].0@);
                }
            }
            assert(out_before.insert(pos as int, out@[pos as int]).to_multiset() =~= out_before
                .to_multiset().insert(out@[pos as int]));
            assert(out@.to_multiset().add(rest@.to_multiset()) =~= orig.to_multiset());
        }
    }
    proof {
        assert(rest@ =~= Seq::<(Vec<u8>, T)>::empty());
        assert(out@.to_multiset().add(rest@.to_multiset()) =~= out@.to_multiset());
    }
    out
}

/// Every element is at most every later element.
pub open spec fn u32s_sorted(s: Seq<u32>) -> bool {
    forall|i: int, j: int| 0 <= i <= j < s.len() ==> #[trigger] s[i] <= #[trigger] s[j]
}

/// Sorts `u32` values ascending, keeping the collection of values.
#[verifier::loop_isolation(false)]
pub fn sort_u32s(items: Vec<u32>) -> (r: Vec<u32>)
    ensures
        u32s_sorted(r@),
        r@.to_multiset() == items@.to_multiset(),
{
    broadcast use vstd::seq_lib::group_to_multiset_ensures;

    let ghost orig = items@;
    let mut rest = items;
    let mut out: Vec<u32> = Vec::new();
    while rest.len() > 0
        invariant
            u32s_sorted(out@),
            out@.to_multiset().add(rest@.to_multiset()) == orig.to_multiset(),
        decreases rest@.len(),
    {
        let ghost rest_before = rest@;
        let it = rest.remove(0);
        proof {
            assert(rest_before.remove(0).to_multiset() =~= rest_before.to_multiset().remove(
                rest_before[0],
            ));
        }
        let mut pos: usize = 0;
        while pos < out.len() && out[pos] <= it
            invariant
                pos <= out@.len(),
                forall|k: int| 0 <= k < pos ==> #[trigger] out@[k] <= it,
            decreases out@.len() - pos,
        {
            pos = pos + 1;
        }
        let ghost out_before = out@;
        out.insert(pos, it);
        proof {
            assert(out_before.insert(pos as int, out@[pos as int]).to_multiset() =~= out_before
                .to_multiset().insert(out@[pos as int]));
            assert(out@.to_multiset().add(rest@.to_multiset()) =~= orig.to_multiset());
        }
    }
    proof {
        assert(rest@ =~= Seq::<u32>::empty());
        assert(out@.to_multiset().add(rest@.to_multiset()) =~= out@.to_multiset());
    }
    out
}


/// Every key in `s` is at least every later key.
pub open spec fn keys_sorted_desc<T>(s: Seq<(Vec<u8>, T)>) -> bool {
    forall|i: int, j: int|
        0 <= i <= j < s.len() ==> lex_le(#[trigger] s[j].0@, #[trigger] s[i].0@)
}

/// Sorts key-value pairs by key descending, keeping the collection of
/// pairs; stable over equal keys.
#[verifier::loop_isolation(false)]
pub fn sort_keyed_desc<T>(items: Vec<(Vec<u8>, T)>) -> (r: Vec<(Vec<u8>, T)>)
    ensures
        keys_sorted_desc(r@),
        r@.to_multiset() == items@.to_multiset(),
{
    broadcast use vstd::seq_lib::group_to_multiset_ensures;

    let ghost orig = items@;
    let mut rest = items;
    let mut out: Vec<(Vec<u8>, T)> = Vec::new();
    while rest.len() > 0
        invariant
            keys_sorted_desc(out@),
            out@.to_multiset().add(rest@.to_multiset()) == orig.to_multiset(),
        decreases rest@.len(),
    {
        let ghost rest_before = rest@;
        let it = rest.remove(0);
        proof {
            assert(rest_before.remove(0).to_multiset() =~= rest_before.to_multiset().remove(
                rest_before[0],
            ));
        }
        let mut pos: usize = 0;
        while pos < out.len() && lex_le_bytes(it.0.as_slice(), out[pos].0.as_slice())
            invariant
                pos <= out@.len(),
                forall|k: int| 0 <= k < pos ==> lex_le(it.0@, (#[trigger] out@[k]).0@),
            decreases out@.len() - pos,
        {
            pos = pos + 1;
        }
        proof {
            if pos < out@.len() {
                lemma_lex_total(out@[pos as int].0@, it.0@);
            }
        }
        let ghost out_before = out@;
        out.insert(pos, it);
        proof {
            assert forall|i: int, j: int| 0 <= i <= j < out@.len() implies lex_le(
                #[trigger] out@[j].0@,
                #[trigger] out@[i].0@,
            ) by {
                let p = pos as int;
                if i < p && j == p {
                } else if i == p && j > p {
                    lemma_lex_trans(out_before[j - 1].0@, out_before[p].0@, out@[p].0@);
                } else if i < p && j > p {
                } else if i == p && j == p {
                    lemma_lex_total(out@[p].0@, out@[p].0@);
                }
            }
            assert(out_before.insert(pos as int, out@[pos as int]).to_multiset() =~= out_before
                .to_multiset().insert(out@[pos as int]));
            assert(out@.to_multiset().add(rest@.to_multiset()) =~= orig.to_multiset());
        }
    }
    proof {
        assert(rest@ =~= Seq::<(Vec<u8>, T)>::empty());
        assert(out@.to_multiset().add(rest@.to_multiset()) =~= out@.to_multiset());
    }
    out
}

} // verus!
