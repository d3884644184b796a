//! Order statistics over measured offsets.
use vstd::prelude::*;
use vstd::relations::{sorted_by, total_ordering};
use vstd::seq_lib::lemma_sorted_unique;

verus! {

/// The natural order of `i128`.
pub open spec fn leq_i128() -> spec_fn(i128, i128) -> bool {
    |a: i128, b: i128| a <= b
}

/// `s` in ascending order.
pub open spec fn sorted_values(s: Seq<i128>) -> Seq<i128> {
    s.sort_by(leq_i128())
}

/// Integer halving that rounds toward zero.
pub open spec fn half_toward_zero(x: int) -> int {
    if x >= 0 {
        x / 2
    } else {
        -((-x) / 2)
    }
}

/// Median of an ascending sequence: its middle element, or the mean of its
/// two middle elements rounded toward zero.
pub open spec fn median_of_sorted(s: Seq<i128>) -> int {
    let n = s.len();
    if n % 2 == 1 {
        s[(n / 2) as int] as int
    } else {
        half_toward_zero(s[n / 2 - 1] + s[(n / 2) as int])
    }
}

/// Median of a sample in any order.
pub open spec fn median_of(s: Seq<i128>) -> int {
    median_of_sorted(sorted_values(s))
}

/// Whether the median of `s` can be computed without leaving the `i128`
/// range: the sample is not empty, and for an even size the two middle values
/// have a sum in range.
pub open spec fn median_defined(s: Seq<i128>) -> bool {
    let t = sorted_values(s);
    &&& s.len() > 0
    &&& s.len() % 2 == 0 ==> i128::MIN <= t[s.len() / 2 - 1] + t[(s.len() / 2) as int] <= i128::MAX
}

pub proof fn lemma_leq_i128_total()
    ensures
        total_ordering(leq_i128()),
{
}

/// The ascending order of `s` is sorted and has the elements of `s`.
pub proof fn lemma_sorted_values(s: Seq<i128>)
    ensures
        sorted_by(sorted_values(s), leq_i128()),
        sorted_values(s).to_multiset() == s.to_multiset(),
        sorted_values(s).len() == s.len(),
{
    lemma_leq_i128_total();
    s.lemma_sort_by_ensures(leq_i128());
    broadcast use vstd::seq_lib::group_to_multiset_ensures;

    assert(sorted_values(s).to_multiset().len() == s.to_multiset().len());
}

/// Any ascending arrangement of the elements of `s` is the ascending order of `s`.
pub proof fn lemma_sorted_is_sorted_values(s: Seq<i128>, t: Seq<i128>)
    requires
        sorted_by(t, leq_i128()),
        t.to_multiset() == s.to_multiset(),
    ensures
        t == sorted_values(s),
{
    lemma_sorted_values(s);
    lemma_leq_i128_total();
    lemma_sorted_unique(t, sorted_values(s), leq_i128());
}

/// The elements of `v` in ascending order (insertion sort).
pub fn sort_ascending(v: &Vec<i128>) -> (r: Vec<i128>)
    ensures
        r@ == sorted_values(v@),
{
    let mut out: Vec<i128> = Vec::new();
    let n = v.len();
    let mut i: usize = 0;
    assert(out@ =~= v@.subrange(0, 0));
    while i < n
        invariant
            n == v@.len(),
            i <= n,
            sorted_by(out@, leq_i128()),
            out@.to_multiset() == v@.subrange(0, i as int).to_multiset(),
        decreases n - i,
    {
        let x = v[i];
        let m = out.len();
        let mut p: usize = 0;
        while p < m && out[p] <= x
            invariant
                m == out@.len(),
                p <= m,
                forall|j: int| 0 <= j < p ==> out@[j] <= x,
            decreases m - p,
        {
            p = p + 1;
        }
        let ghost before = out@;
        out.insert(p, x);
        proof {
            broadcast use vstd::seq_lib::group_to_multiset_ensures;

            assert(forall|j: int| p <= j < before.len() ==> before[j] > x) by {
                if p < before.len() {
                    assert(before[p as int] > x);
                    assert forall|j: int| p <= j < before.len() implies before[j] > x by {
                        assert(leq_i128()(before[p as int], before[j]) || p == j);
                    }
                }
            }
            assert forall|a: int, b: int| 0 <= a < b < out@.len() implies #[trigger] leq_i128()(
                out@[a],
                out@[b],
            ) by {
                if b < p {
                    assert(leq_i128()(before[a], before[b]));
                } else if b == p {
                    assert(out@[a] == before[a]);
                } else if a == p {
                    assert(out@[b] == before[b - 1]);
                } else if a < p {
                    assert(leq_i128()(before[a], before[b - 1]));
                } else {
                    assert(leq_i128()(before[a - 1], before[b - 1]));
                }
            }
            assert(v@.subrange(0, i + 1) =~= v@.subrange(0, i as int).push(x));
        }
        i = i + 1;
    }
    proof {
        assert(v@.subrange(0, n as int) =~= v@);
        lemma_sorted_is_sorted_values(v@, out@);
    }
    out
}

/// Median of a sample of offsets; for an even size, the mean of the two
/// middle values rounded toward zero.
pub fn median(values: &Vec<i128>) -> (r: i128)
    requires
        median_defined(values@),
    ensures
        r as int == median_of(values@),
{
    let sorted = sort_ascending(values);
    proof {
        lemma_sorted_values(values@);
    }
    let len = sorted.len();
    if len % 2 == 1 {
        sorted[len / 2]
    } else {
        let sum = sorted[len / 2 - 1] + sorted[len / 2];
        sum / 2
    }
}

/// The median does not depend on the order of the sample.
pub proof fn lemma_median_order_independent(s: Seq<i128>, t: Seq<i128>)
    requires
        s.to_multiset() == t.to_multiset(),
    ensures
        median_of(s) == median_of(t),
        median_defined(s) == median_defined(t),
{
    lemma_sorted_values(s);
    lemma_sorted_is_sorted_values(t, sorted_values(s));
    broadcast use vstd::seq_lib::group_to_multiset_ensures;

    assert(s.len() == s.to_multiset().len());
    assert(t.len() == t.to_multiset().len());
}

/// The median lies between the smallest and the largest value of the sample.
pub proof fn lemma_median_bounds(s: Seq<i128>)
    requires
        s.len() > 0,
    ensures
        exists|i: int| 0 <= i < s.len() && s[i] <= median_of(s),
        exists|i: int| 0 <= i < s.len() && median_of(s) <= s[i],
{
    let t = sorted_values(s);
    lemma_sorted_values(s);
    broadcast use vstd::seq_lib::group_to_multiset_ensures;

    let n = s.len();
    let lo: int = if n % 2 == 1 { (n / 2) as int } else { n / 2 - 1 };
    let hi: int = (n / 2) as int;
    assert(leq_i128()(t[lo], t[hi]) || lo == hi);
    assert(t[lo] <= median_of(s) <= t[hi]);
    assert(t.contains(t[lo]));
    assert(s.contains(t[lo])) by {
        assert(t.to_multiset().count(t[lo]) > 0);
    }
    assert(s.contains(t[hi])) by {
        assert(t.contains(t[hi]));
        assert(t.to_multiset().count(t[hi]) > 0);
    }
}

/// Negation of an `i128` (wrapping only at `i128::MIN`).
pub open spec fn negate_fn() -> spec_fn(i128) -> i128 {
    |x: i128| (-x) as i128
}

/// Every value of `s` negated.
pub open spec fn negated(s: Seq<i128>) -> Seq<i128> {
    s.map_values(negate_fn())
}

/// Mapping two arrangements of the same values gives two arrangements of
/// the same values.
proof fn lemma_map_keeps_permutation(a: Seq<i128>, b: Seq<i128>, f: spec_fn(i128) -> i128)
    requires
        a.to_multiset() == b.to_multiset(),
    ensures
        a.map_values(f).to_multiset() == b.map_values(f).to_multiset(),
    decreases a.len(),
{
    broadcast use vstd::seq_lib::group_to_multiset_ensures;
    broadcast use vstd::multiset::group_multiset_axioms;

    assert(a.len() == a.to_multiset().len());
    assert(b.len() == b.to_multiset().len());
    if a.len() == 0 {
        assert(a.map_values(f) =~= b.map_values(f));
    } else {
        let x = a.last();
        let a1 = a.drop_last();
        assert(a =~= a1.push(x));
        assert(a[a.len() - 1] == x);
        assert(a.to_multiset().count(x) > 0);
        assert(b.to_multiset().count(x) > 0);
        assert(b.contains(x));
        let j = choose|j: int| 0 <= j < b.len() && b[j] == x;
        let b1 = b.remove(j);
        assert(b1.to_multiset() == b.to_multiset().remove(x));
        assert(a.to_multiset() == a1.to_multiset().insert(x));
        assert(b1.to_multiset() =~= a1.to_multiset());
        lemma_map_keeps_permutation(a1, b1, f);
        assert(a.map_values(f) =~= a1.map_values(f).push(f(x)));
        assert(b.map_values(f).remove(j) =~= b1.map_values(f));
        assert(b.map_values(f)[j] == f(x));
        assert(b.map_values(f).remove(j).to_multiset() == b.map_values(f).to_multiset().remove(f(x)));
        assert(b.map_values(f).to_multiset().count(f(x)) > 0) by {
            assert(b.map_values(f).contains(f(x)));
        }
        assert(b.map_values(f).to_multiset() =~= a.map_values(f).to_multiset());
    }
}

/// Negating every value negates the median (the mean of two middle values
/// rounds toward zero, so the rounding is symmetric too).
pub proof fn lemma_median_negated(s: Seq<i128>)
    requires
        s.len() > 0,
        forall|i: int| 0 <= i < s.len() ==> s[i] != i128::MIN,
    ensures
        median_of(negated(s)) == -median_of(s),
{
    let t = sorted_values(s);
    let n = s.len() as int;
    lemma_sorted_values(s);
    assert forall|i: int| 0 <= i < n implies t[i] != i128::MIN by {
        broadcast use vstd::seq_lib::group_to_multiset_ensures;

        assert(t.contains(t[i]));
        assert(t.to_multiset().count(t[i]) > 0);
        assert(s.contains(t[i]));
    }
    let u = negated(t).reverse();
    assert(u.len() == n);
    assert forall|i: int, j: int| 0 <= i < j < u.len() implies #[trigger] leq_i128()(u[i], u[j]) by {
        assert(leq_i128()(t[n - 1 - j], t[n - 1 - i]));
    }
    lemma_map_keeps_permutation(t, s, negate_fn());
    negated(t).lemma_reverse_to_multiset();
    lemma_sorted_is_sorted_values(negated(s), u);
    assert(sorted_values(negated(s)) == u);
    if n % 2 == 1 {
        assert(n - 1 - n / 2 == n / 2);
        assert(u[n / 2] == -t[n / 2]);
    } else {
        assert(u[n / 2 - 1] == -t[n / 2]);
        assert(u[n / 2] == -t[n / 2 - 1]);
    }
}

} // verus!
