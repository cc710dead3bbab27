//! Order-restoring reassembly of concurrently produced extraction results.
//!
//! Each worker reports `(originalIndex, text)` through a shared channel, in
//! whatever order the workers happen to finish. The coordinator gathers the
//! reports and sorts them ascending by original index, so the emitted script
//! always follows the resolver's discovery order, independent of completion
//! order or scheduling.

use vstd::prelude::*;
use vstd::seq_lib::group_to_multiset_ensures;
use vstd::seq_lib::lemma_multiset_commutative;

verus! {

/// The gathered reports are ordered ascending by original index.
pub open spec fn sorted_by_index(s: Seq<(usize, String)>) -> bool {
    forall|i: int, j: int| 0 <= i < j < s.len() ==> (#[trigger] s[i]).0 <= (#[trigger] s[j]).0
}

/// No two reports carry the same original index.
pub open spec fn distinct_indices(s: Seq<(usize, String)>) -> bool {
    forall|i: int, j: int| 0 <= i < j < s.len() ==> (#[trigger] s[i]).0 != (#[trigger] s[j]).0
}

/// No report in `s` carries the original index `k`.
pub open spec fn index_absent(s: Seq<(usize, String)>, k: usize) -> bool {
    forall|i: int| 0 <= i < s.len() ==> (#[trigger] s[i]).0 != k
}

/// Insert `x` before the first element whose index exceeds `x`'s.
pub open spec fn insert_sorted_spec(x: (usize, String), s: Seq<(usize, String)>) -> Seq<
    (usize, String),
>
    decreases s.len(),
{
    if s.len() == 0 {
        seq![x]
    } else if x.0 < s[0].0 {
        seq![x] + s
    } else {
        seq![s[0]] + insert_sorted_spec(x, s.drop_first())
    }
}

/// Stable insertion sort of the reports, ascending by original index.
pub open spec fn sort_by_index_spec(s: Seq<(usize, String)>) -> Seq<(usize, String)>
    decreases s.len(),
{
    if s.len() == 0 {
        s
    } else {
        insert_sorted_spec(s.last(), sort_by_index_spec(s.drop_last()))
    }
}

/// A position holding the element `e`, which the multiset count promises is
/// somewhere in `s`.
proof fn lemma_multiset_element_index(s: Seq<(usize, String)>, e: (usize, String)) -> (i: int)
    requires
        s.to_multiset().count(e) > 0,
    ensures
        0 <= i < s.len() && s[i] == e,
{
    broadcast use group_to_multiset_ensures;

    assert(s.contains(e));
    let i = choose|i: int| 0 <= i < s.len() && s[i] == e;
    i
}

proof fn lemma_insert_sorted_len(x: (usize, String), s: Seq<(usize, String)>)
    ensures
        insert_sorted_spec(x, s).len() == s.len() + 1,
    decreases s.len(),
{
    if s.len() == 0 {
    } else if x.0 < s[0].0 {
    } else {
        lemma_insert_sorted_len(x, s.drop_first());
    }
}

proof fn lemma_insert_sorted_multiset(x: (usize, String), s: Seq<(usize, String)>)
    ensures
        insert_sorted_spec(x, s).to_multiset() == s.to_multiset().insert(x),
    decreases s.len(),
{
    broadcast use group_to_multiset_ensures;

    if s.len() == 0 {
        assert(seq![x] =~= Seq::<(usize, String)>::empty().push(x));
        assert(insert_sorted_spec(x, s).to_multiset() =~= s.to_multiset().insert(x));
    } else if x.0 < s[0].0 {
        lemma_multiset_commutative(seq![x], s);
        assert(seq![x] =~= Seq::<(usize, String)>::empty().push(x));
        assert(insert_sorted_spec(x, s).to_multiset() =~= s.to_multiset().insert(x));
    } else {
        lemma_insert_sorted_multiset(x, s.drop_first());
        lemma_multiset_commutative(seq![s[0]], insert_sorted_spec(x, s.drop_first()));
        lemma_multiset_commutative(seq![s[0]], s.drop_first());
        assert(seq![s[0]] =~= Seq::<(usize, String)>::empty().push(s[0]));
        assert(s =~= seq![s[0]] + s.drop_first());
        assert(insert_sorted_spec(x, s).to_multiset() =~= s.to_multiset().insert(x));
    }
}

/// Every element of the insertion's result is the inserted report or one of
/// the original reports.
proof fn lemma_insert_sorted_element(x: (usize, String), s: Seq<(usize, String)>, j: int)
    requires
        0 <= j < insert_sorted_spec(x, s).len(),
    ensures
        insert_sorted_spec(x, s)[j] == x || s.contains(insert_sorted_spec(x, s)[j]),
    decreases s.len(),
{
    let t = insert_sorted_spec(x, s);
    if s.len() == 0 {
    } else if x.0 < s[0].0 {
        if j > 0 {
            assert(t[j] == s[j - 1]);
            assert(s.contains(s[j - 1]));
        }
    } else {
        if j == 0 {
            assert(t[0] == s[0]);
            assert(s.contains(s[0]));
        } else {
            let tail = s.drop_first();
            lemma_insert_sorted_len(x, tail);
            assert(t[j] == insert_sorted_spec(x, tail)[j - 1]);
            lemma_insert_sorted_element(x, tail, j - 1);
            if insert_sorted_spec(x, tail)[j - 1] != x {
                let w = choose|w: int|
                    0 <= w < tail.len() && tail[w] == insert_sorted_spec(x, tail)[j - 1];
                assert(tail[w] == s[w + 1]);
                assert(s.contains(s[w + 1]));
            }
        }
    }
}

proof fn lemma_insert_sorted_sorted(x: (usize, String), s: Seq<(usize, String)>)
    requires
        sorted_by_index(s),
    ensures
        sorted_by_index(insert_sorted_spec(x, s)),
    decreases s.len(),
{
    let t = insert_sorted_spec(x, s);
    if s.len() == 0 {
    } else if x.0 < s[0].0 {
        assert forall|i: int, j: int| 0 <= i < j < t.len() implies (#[trigger] t[i]).0 <= (
        #[trigger] t[j]).0 by {
            if i == 0 {
                assert(t[j] == s[j - 1]);
                if j > 1 {
                    assert((#[trigger] s[0]).0 <= (#[trigger] s[j - 1]).0);
                }
            } else {
                assert(t[i] == s[i - 1] && t[j] == s[j - 1]);
            }
        }
    } else {
        let tail = s.drop_first();
        assert(sorted_by_index(tail)) by {
            assert(forall|i: int, j: int|
                0 <= i < j < tail.len() ==> (#[trigger] tail[i]) == s[i + 1] && (
                #[trigger] tail[j]) == s[j + 1]);
        }
        lemma_insert_sorted_sorted(x, tail);
        lemma_insert_sorted_len(x, tail);
        let u = insert_sorted_spec(x, tail);
        assert forall|i: int, j: int| 0 <= i < j < t.len() implies (#[trigger] t[i]).0 <= (
        #[trigger] t[j]).0 by {
            if i == 0 {
                assert(t[j] == u[j - 1]);
                lemma_insert_sorted_element(x, tail, j - 1);
                if u[j - 1] == x {
                    assert(s[0].0 <= x.0);
                } else {
                    let w = choose|w: int| 0 <= w < tail.len() && tail[w] == u[j - 1];
                    assert(tail[w] == s[w + 1]);
                    assert((#[trigger] s[0]).0 <= (#[trigger] s[w + 1]).0);
                }
            } else {
                assert(t[i] == u[i - 1] && t[j] == u[j - 1]);
            }
        }
    }
}

proof fn lemma_insert_sorted_distinct(x: (usize, String), s: Seq<(usize, String)>)
    requires
        distinct_indices(s),
        index_absent(s, x.0),
    ensures
        distinct_indices(insert_sorted_spec(x, s)),
    decreases s.len(),
{
    let t = insert_sorted_spec(x, s);
    if s.len() == 0 {
    } else if x.0 < s[0].0 {
        assert forall|i: int, j: int| 0 <= i < j < t.len() implies (#[trigger] t[i]).0 != (
        #[trigger] t[j]).0 by {
            if i == 0 {
                assert(t[j] == s[j - 1]);
                assert((#[trigger] s[j - 1]).0 != x.0);
            } else {
                assert(t[i] == s[i - 1] && t[j] == s[j - 1]);
            }
        }
    } else {
        let tail = s.drop_first();
        assert(distinct_indices(tail) && index_absent(tail, x.0)) by {
            assert(forall|i: int|
                0 <= i < tail.len() ==> (#[trigger] tail[i]) == s[i + 1]);
        }
        lemma_insert_sorted_distinct(x, tail);
        lemma_insert_sorted_len(x, tail);
        let u = insert_sorted_spec(x, tail);
        assert forall|i: int, j: int| 0 <= i < j < t.len() implies (#[trigger] t[i]).0 != (
        #[trigger] t[j]).0 by {
            if i == 0 {
                assert(t[j] == u[j - 1]);
                lemma_insert_sorted_element(x, tail, j - 1);
                if u[j - 1] == x {
                    assert((#[trigger] s[0]).0 != x.0);
                } else {
                    let w = choose|w: int| 0 <= w < tail.len() && tail[w] == u[j - 1];
                    assert(tail[w] == s[w + 1]);
                    assert((#[trigger] s[0]).0 != (#[trigger] s[w + 1]).0);
                }
            } else {
                assert(t[i] == u[i - 1] && t[j] == u[j - 1]);
            }
        }
    }
}

/// The sorted reports are ordered by index and hold exactly the gathered
/// reports; distinct indices stay distinct.
pub proof fn lemma_sort_by_index_ensures(s: Seq<(usize, String)>)
    ensures
        sorted_by_index(sort_by_index_spec(s)),
        sort_by_index_spec(s).to_multiset() == s.to_multiset(),
        sort_by_index_spec(s).len() == s.len(),
        distinct_indices(s) ==> distinct_indices(sort_by_index_spec(s)),
    decreases s.len(),
{
    broadcast use group_to_multiset_ensures;

    if s.len() == 0 {
    } else {
        let x = s.last();
        let t = s.drop_last();
        assert(distinct_indices(s) ==> distinct_indices(t)) by {
            if distinct_indices(s) {
                assert(forall|i: int|
                    0 <= i < t.len() ==> (#[trigger] t[i]) == s[i]);
            }
        }
        lemma_sort_by_index_ensures(t);
        lemma_insert_sorted_sorted(x, sort_by_index_spec(t));
        lemma_insert_sorted_multiset(x, sort_by_index_spec(t));
        lemma_insert_sorted_len(x, sort_by_index_spec(t));
        assert(s =~= t.push(x));
        assert(t.push(x).to_multiset() =~= t.to_multiset().insert(x));
        assert(sort_by_index_spec(s).to_multiset() =~= s.to_multiset());
        if distinct_indices(s) {
            assert(index_absent(sort_by_index_spec(t), x.0)) by {
                assert forall|j: int| 0 <= j < sort_by_index_spec(t).len() implies (
                #[trigger] sort_by_index_spec(t)[j]).0 != x.0 by {
                    let e = sort_by_index_spec(t)[j];
                    assert(sort_by_index_spec(t).contains(e));
                    assert(sort_by_index_spec(t).to_multiset().count(e) > 0);
                    let u = lemma_multiset_element_index(t, e);
                    assert(t[u] == s[u]);
                    assert((#[trigger] s[u]).0 != (#[trigger] s[s.len() - 1]).0);
                }
            }
            lemma_insert_sorted_distinct(x, sort_by_index_spec(t));
        }
    }
}

/// Two sequences of reports that are sorted by index, hold the same reports,
/// and carry no duplicate index are the same sequence.
proof fn lemma_sorted_distinct_unique(x: Seq<(usize, String)>, y: Seq<(usize, String)>)
    requires
        sorted_by_index(x),
        sorted_by_index(y),
        distinct_indices(x),
        x.to_multiset() == y.to_multiset(),
    ensures
        x == y,
    decreases x.len(),
{
    broadcast use group_to_multiset_ensures;

    assert(x.to_multiset().len() == x.len());
    assert(y.to_multiset().len() == y.len());
    if x.len() == 0 {
        assert(x =~= y);
    } else {
        // each head occurs in the other sequence, so the two head indices
        // bound each other
        assert(x.contains(x[0]));
        assert(y.to_multiset().count(x[0]) > 0);
        let i = lemma_multiset_element_index(y, x[0]);
        assert((#[trigger] y[0]).0 <= (#[trigger] y[i]).0);
        assert(y.contains(y[0]));
        assert(x.to_multiset().count(y[0]) > 0);
        let j = lemma_multiset_element_index(x, y[0]);
        assert((#[trigger] x[0]).0 <= (#[trigger] x[j]).0);
        assert(x[0].0 == y[0].0);
        // x's indices are distinct, so y's head can only sit at x's head
        if j != 0 {
            assert((#[trigger] x[0]).0 != (#[trigger] x[j]).0);
        }
        assert(x[0] == y[0]);
        let xt = x.drop_first();
        let yt = y.drop_first();
        assert(xt.to_multiset() == x.to_multiset().remove(x[0])) by {
            assert(x.remove(0).to_multiset() =~= x.to_multiset().remove(x[0]));
            assert(x.remove(0) =~= xt);
        }
        assert(yt.to_multiset() == y.to_multiset().remove(y[0])) by {
            assert(y.remove(0).to_multiset() =~= y.to_multiset().remove(y[0]));
            assert(y.remove(0) =~= yt);
        }
        assert(sorted_by_index(xt) && distinct_indices(xt)) by {
            assert(forall|i2: int|
                0 <= i2 < xt.len() ==> (#[trigger] xt[i2]) == x[i2 + 1]);
        }
        assert(sorted_by_index(yt)) by {
            assert(forall|i2: int|
                0 <= i2 < yt.len() ==> (#[trigger] yt[i2]) == y[i2 + 1]);
        }
        lemma_sorted_distinct_unique(xt, yt);
        assert forall|i2: int| 0 <= i2 < x.len() implies x[i2] == y[i2] by {
            if i2 > 0 {
                assert(xt[i2 - 1] == x[i2]);
                assert(yt[i2 - 1] == y[i2]);
            }
        }
        assert(x =~= y);
    }
}

/// Law: reassembly is invariant under the workers' completion order. Two
/// gatherings of the same reports — the same indexed results, received in
/// any two orders — sort to the same sequence, as long as no index is
/// reported twice.
pub proof fn lemma_reassembly_order_invariant(a: Seq<(usize, String)>, b: Seq<(usize, String)>)
    requires
        distinct_indices(a),
        a.to_multiset() == b.to_multiset(),
    ensures
        sort_by_index_spec(a) == sort_by_index_spec(b),
{
    lemma_sort_by_index_ensures(a);
    lemma_sort_by_index_ensures(b);
    lemma_sorted_distinct_unique(sort_by_index_spec(a), sort_by_index_spec(b));
}

/// Where `insert_sorted_spec` places the new report: after the reports with
/// an index not above `x`'s, at the first position whose index exceeds it.
proof fn lemma_insert_sorted_at(x: (usize, String), s: Seq<(usize, String)>, j: int)
    requires
        0 <= j <= s.len(),
        forall|i: int| 0 <= i < j ==> (#[trigger] s[i]).0 <= x.0,
        j < s.len() ==> x.0 < s[j].0,
    ensures
        insert_sorted_spec(x, s) == s.subrange(0, j) + seq![x] + s.subrange(j, s.len() as int),
    decreases s.len(),
{
    if s.len() == 0 {
        assert(insert_sorted_spec(x, s) =~= s.subrange(0, j) + seq![x] + s.subrange(
            j,
            s.len() as int,
        ));
    } else if x.0 < s[0].0 {
        assert(j == 0) by {
            if j > 0 {
                assert((#[trigger] s[0]).0 <= x.0);
            }
        }
        assert(insert_sorted_spec(x, s) =~= s.subrange(0, j) + seq![x] + s.subrange(
            j,
            s.len() as int,
        ));
    } else {
        assert(j >= 1) by {
            if j == 0 {
                assert(x.0 < s[0].0);
            }
        }
        let tail = s.drop_first();
        assert(forall|i: int| 0 <= i < j - 1 ==> (#[trigger] tail[i]) == s[i + 1]);
        assert(j - 1 < tail.len() ==> x.0 < tail[j - 1].0) by {
            if j - 1 < tail.len() {
                assert(tail[j - 1] == s[j]);
            }
        }
        lemma_insert_sorted_at(x, tail, j - 1);
        assert(insert_sorted_spec(x, s) =~= s.subrange(0, j) + seq![x] + s.subrange(
            j,
            s.len() as int,
        ));
    }
}

/// Insert one report into an already gathered vector, keeping it ordered by
/// original index.
fn insert_by_index(out: &mut Vec<(usize, String)>, x: (usize, String))
    ensures
        final(out)@ == insert_sorted_spec(x, old(out)@),
{
    let n = out.len();
    let mut j: usize = 0;
    while j < n && out[j].0 <= x.0
        invariant
            j <= n,
            n == out@.len(),
            out@ == old(out)@,
            forall|i: int| 0 <= i < j ==> (#[trigger] out@[i]).0 <= x.0,
        decreases n - j,
    {
        j = j + 1;
    }
    proof {
        lemma_insert_sorted_at(x, out@, j as int);
    }
    out.insert(j, x);
    proof {
        assert(final(out)@ =~= old(out)@.subrange(0, j as int) + seq![x] + old(out)@.subrange(
            j as int,
            old(out)@.len() as int,
        ));
    }
}

/// Restore discovery order: sort the gathered reports ascending by their
/// original index.
pub fn sort_by_index(reports: &Vec<(usize, String)>) -> (r: Vec<(usize, String)>)
    ensures
        r@ == sort_by_index_spec(reports@),
{
    let mut out: Vec<(usize, String)> = Vec::new();
    let mut k: usize = 0;
    while k < reports.len()
        invariant
            k <= reports@.len(),
            out@ == sort_by_index_spec(reports@.subrange(0, k as int)),
        decreases reports@.len() - k,
    {
        let ix: usize = reports[k].0;
        let s: String = reports[k].1.clone();
        insert_by_index(&mut out, (ix, s));
        k = k + 1;
        proof {
            let t = reports@.subrange(0, k as int);
            assert(t.drop_last() =~= reports@.subrange(0, k - 1));
            assert(t.last() == reports@[k - 1]);
            assert((ix, s) == reports@[k - 1]);
        }
    }
    proof {
        assert(reports@.subrange(0, reports@.len() as int) =~= reports@);
    }
    out
}

} // verus!
