//! The five-number summary of a sample, and its outliers.
use vstd::prelude::*;
use vstd::relations::{sorted_by, total_ordering};

verus! {

/// The ascending order on sample values.
pub open spec fn ascending() -> spec_fn(i64, i64) -> bool {
    |a: i64, b: i64| a <= b
}

/// The sample in ascending order.
pub open spec fn sorted_sample(s: Seq<i64>) -> Seq<i64> {
    s.sort_by(ascending())
}

/// The `pct` percentile of the sorted sequence `s`, by linear interpolation
/// between the two closest ranks, in hundredths of a sample unit.
pub open spec fn percentile_spec(s: Seq<i64>, pct: int) -> int {
    if s.len() == 1 {
        100 * s[0]
    } else if pct == 100 {
        100 * s[s.len() - 1]
    } else {
        let rank = pct * (s.len() - 1);
        let lo = rank / 100;
        let frac = rank % 100;
        100 * s[lo] + (s[lo + 1] - s[lo]) * frac
    }
}

/// Extracts the `pct` percentile of the sorted `s` by linear interpolation,
/// in hundredths of a sample unit.
pub fn percentile_of_sorted(s: &[i64], pct: u32) -> (r: i128)
    requires
        s@.len() > 0,
        pct <= 100,
    ensures
        r == percentile_spec(s@, pct as int),
{
    let n = s.len();
    if n == 1 {
        return 100 * (s[0] as i128);
    }
    if pct == 100 {
        return 100 * (s[n - 1] as i128);
    }
    proof {
        assert(pct as int * (n - 1) as int <= 100 * 0x1_0000_0000_0000_0000) by (nonlinear_arith)
            requires pct <= 100, 0 <= (n - 1) as int <= 0x1_0000_0000_0000_0000;
    }
    let rank: u128 = (pct as u128) * ((n - 1) as u128);
    proof {
        let m = (n - 1) as int;
        assert(rank as int == pct as int * m);
        assert(pct as int * m <= 99 * m) by (nonlinear_arith)
            requires pct <= 99, m >= 1;
    }
    let lo = (rank / 100) as usize;
    let frac = (rank % 100) as i128;
    let a = s[lo] as i128;
    let b = s[lo + 1] as i128;
    proof {
        let d = b - a;
        assert(-0x1_0000_0000_0000_0000 < d < 0x1_0000_0000_0000_0000);
        assert(-100 * 0x1_0000_0000_0000_0000 <= d * frac <= 100 * 0x1_0000_0000_0000_0000)
            by (nonlinear_arith)
            requires
                -0x1_0000_0000_0000_0000 < d < 0x1_0000_0000_0000_0000,
                0 <= frac < 100,
        ;
    }
    100 * a + (b - a) * frac
}

/// Every value of `s` is at most every value that comes after it.
pub open spec fn is_ascending(s: Seq<i64>) -> bool {
    forall|i: int, j: int| 0 <= i <= j < s.len() ==> s[i] <= s[j]
}

/// First quartile of the sorted `s`, in hundredths.
pub open spec fn lower_quartile_of(s: Seq<i64>) -> int {
    percentile_spec(s, 25)
}

/// Median of the sorted `s`, in hundredths.
pub open spec fn median_of(s: Seq<i64>) -> int {
    percentile_spec(s, 50)
}

/// Third quartile of the sorted `s`, in hundredths.
pub open spec fn upper_quartile_of(s: Seq<i64>) -> int {
    percentile_spec(s, 75)
}

/// Twice the lower fence `Q1 - 1.5 * (Q3 - Q1)`, in hundredths.
pub open spec fn lower_fence2(s: Seq<i64>) -> int {
    5 * lower_quartile_of(s) - 3 * upper_quartile_of(s)
}

/// Twice the upper fence `Q3 + 1.5 * (Q3 - Q1)`, in hundredths.
pub open spec fn upper_fence2(s: Seq<i64>) -> int {
    5 * upper_quartile_of(s) - 3 * lower_quartile_of(s)
}

/// Holds of a value strictly outside the fences given doubled, in hundredths.
pub open spec fn outside(lf2: int, uf2: int) -> spec_fn(i64) -> bool {
    |v: i64| 200 * v < lf2 || 200 * v > uf2
}

/// Holds of a value within the fences given doubled, in hundredths.
pub open spec fn inside(lf2: int, uf2: int) -> spec_fn(i64) -> bool {
    |v: i64| lf2 <= 200 * v <= uf2
}

/// The values of the sorted `s` outside its fences, in order.
pub open spec fn outliers_of(s: Seq<i64>) -> Seq<i64> {
    s.filter(outside(lower_fence2(s), upper_fence2(s)))
}

/// The values of the sorted `s` within its fences, in order.
pub open spec fn inliers_of(s: Seq<i64>) -> Seq<i64> {
    s.filter(inside(lower_fence2(s), upper_fence2(s)))
}

/// The mathematical content of a summary. `minimum` and `maximum` are sample
/// values; the three quartiles are in hundredths of a sample unit.
pub struct Summary {
    pub minimum: int,
    pub lower_quartile: int,
    pub median: int,
    pub upper_quartile: int,
    pub maximum: int,
    pub outliers: Seq<i64>,
}

/// The summary of an already sorted sample.
pub open spec fn summary_of_sorted(s: Seq<i64>) -> Summary {
    Summary {
        minimum: inliers_of(s).first() as int,
        lower_quartile: lower_quartile_of(s),
        median: median_of(s),
        upper_quartile: upper_quartile_of(s),
        maximum: inliers_of(s).last() as int,
        outliers: outliers_of(s),
    }
}

/// The summary of a sample, in any order.
pub open spec fn summary(sample: Seq<i64>) -> Summary {
    summary_of_sorted(sorted_sample(sample))
}

proof fn lemma_ascending_total()
    ensures
        total_ordering(ascending()),
{
}

/// The sorted sample is ascending and holds the same values.
proof fn lemma_sorted_sample(s: Seq<i64>)
    ensures
        is_ascending(sorted_sample(s)),
        sorted_sample(s).to_multiset() == s.to_multiset(),
        sorted_sample(s).len() == s.len(),
{
    lemma_ascending_total();
    s.lemma_sort_by_ensures(ascending());
    let t = sorted_sample(s);
    assert forall|i: int, j: int| 0 <= i <= j < t.len() implies t[i] <= t[j] by {
        if i < j {
            assert(ascending()(t[i], t[j]));
        }
    }
    t.to_multiset_ensures();
    s.to_multiset_ensures();
}

/// An ascending sequence with the same values as `s` is its sorted sample.
proof fn lemma_sorted_sample_unique(s: Seq<i64>, t: Seq<i64>)
    requires
        is_ascending(t),
        t.to_multiset() == s.to_multiset(),
    ensures
        t == sorted_sample(s),
{
    lemma_ascending_total();
    s.lemma_sort_by_ensures(ascending());
    assert(sorted_by(t, ascending())) by {
        assert forall|i: int, j: int| 0 <= i < j < t.len() implies #[trigger] ascending()(
            t[i],
            t[j],
        ) by {}
    }
    vstd::seq_lib::lemma_sorted_unique(t, sorted_sample(s), ascending());
}

/// Where the interpolation falls between two neighbouring values.
proof fn lemma_percentile_between(s: Seq<i64>, pct: int)
    requires
        is_ascending(s),
        s.len() >= 2,
        0 <= pct < 100,
    ensures
        0 <= pct * (s.len() - 1) / 100 < s.len() - 1,
        100 * s[pct * (s.len() - 1) / 100] <= percentile_spec(s, pct),
        percentile_spec(s, pct) <= 100 * s[pct * (s.len() - 1) / 100 + 1],
{
    let m = s.len() - 1;
    let rank = pct * m;
    assert(0 <= pct * m <= 99 * m) by (nonlinear_arith)
        requires
            0 <= pct < 100,
            m >= 1,
    ;
    let lo = rank / 100;
    let frac = rank % 100;
    let d = s[lo + 1] - s[lo];
    assert(d >= 0);
    assert(0 <= d * frac <= 100 * d) by (nonlinear_arith)
        requires
            d >= 0,
            0 <= frac < 100,
    ;
}

/// Every percentile lies between a hundred times the least and the greatest value.
proof fn lemma_percentile_range(s: Seq<i64>, pct: int)
    requires
        is_ascending(s),
        s.len() >= 1,
        0 <= pct <= 100,
    ensures
        100 * s[0] <= percentile_spec(s, pct) <= 100 * s[s.len() - 1],
{
    if s.len() >= 2 && pct < 100 {
        lemma_percentile_between(s, pct);
    }
}

/// A larger percentage never gives a smaller percentile.
proof fn lemma_percentile_monotone(s: Seq<i64>, pct_a: int, pct_b: int)
    requires
        is_ascending(s),
        s.len() >= 1,
        0 <= pct_a <= pct_b <= 100,
    ensures
        percentile_spec(s, pct_a) <= percentile_spec(s, pct_b),
{
    if s.len() == 1 {
    } else if pct_b == 100 {
        lemma_percentile_range(s, pct_a);
    } else {
        let m = s.len() - 1;
        lemma_percentile_between(s, pct_a);
        lemma_percentile_between(s, pct_b);
        assert(pct_a * m <= pct_b * m) by (nonlinear_arith)
            requires
                pct_a <= pct_b,
                m >= 0,
        ;
        let lo1 = pct_a * m / 100;
        let lo2 = pct_b * m / 100;
        if lo1 == lo2 {
            let d = s[lo1 + 1] - s[lo1];
            let f1 = pct_a * m % 100;
            let f2 = pct_b * m % 100;
            assert(f1 <= f2);
            assert(d * f1 <= d * f2) by (nonlinear_arith)
                requires
                    d >= 0,
                    f1 <= f2,
            ;
        } else {
            assert(lo1 + 1 <= lo2);
            assert(s[lo1 + 1] <= s[lo2]);
        }
    }
}

/// At least one value of a non-empty sorted sample lies within its fences.
proof fn lemma_inliers_nonempty(s: Seq<i64>)
    requires
        is_ascending(s),
        s.len() >= 1,
    ensures
        inliers_of(s).len() > 0,
{
    broadcast use vstd::seq_lib::group_filter_ensures;

    let q1 = lower_quartile_of(s);
    let q3 = upper_quartile_of(s);
    let pred = inside(lower_fence2(s), upper_fence2(s));
    let n = s.len();
    if n == 1 {
        assert(pred(s[0]));
        assert(inliers_of(s).contains(s[0]));
    } else if n == 2 {
        assert(pred(s[0]));
        assert(inliers_of(s).contains(s[0]));
    } else {
        let m = n - 1;
        lemma_percentile_between(s, 25);
        lemma_percentile_between(s, 75);
        let lo1 = 25 * m / 100;
        let lo3 = 75 * m / 100;
        assert(lo1 + 1 <= lo3);
        let k = lo1 + 1;
        assert(s[k] <= s[lo3]);
        assert(q1 <= 100 * s[k] <= q3);
        assert(pred(s[k]));
        assert(inliers_of(s).contains(s[k]));
    }
}

/// Filtering keeps an ascending sequence ascending, and keeps only its values.
proof fn lemma_filter_ascending(s: Seq<i64>, p: spec_fn(i64) -> bool)
    requires
        is_ascending(s),
    ensures
        is_ascending(s.filter(p)),
        forall|k: int| 0 <= k < s.filter(p).len() ==> s.contains(#[trigger] s.filter(p)[k]),
    decreases s.len(),
{
    reveal(Seq::filter);
    if s.len() > 0 {
        let init = s.drop_last();
        assert(is_ascending(init));
        lemma_filter_ascending(init, p);
        let f = init.filter(p);
        assert forall|k: int| 0 <= k < f.len() implies f[k] <= s.last() by {
            assert(init.contains(f[k]));
            let j = choose|j: int| 0 <= j < init.len() && init[j] == f[k];
            assert(s[j] == init[j]);
        }
        assert forall|k: int| 0 <= k < s.filter(p).len() implies s.contains(
            #[trigger] s.filter(p)[k],
        ) by {
            if k < f.len() {
                let j = choose|j: int| 0 <= j < init.len() && init[j] == f[k];
                assert(s[j] == init[j]);
            } else {
                assert(s[s.len() - 1] == s.last());
            }
        }
    }
}

/// Some value of the sample lies within the fences and at or below the first
/// quartile.
pub open spec fn reaches_lower_quartile(sample: Seq<i64>) -> bool {
    let t = sorted_sample(sample);
    exists|i: int|
        0 <= i < t.len() && #[trigger] inside(lower_fence2(t), upper_fence2(t))(t[i]) && 100
            * t[i] <= lower_quartile_of(t)
}

/// Some value of the sample lies within the fences and at or above the third
/// quartile.
pub open spec fn reaches_upper_quartile(sample: Seq<i64>) -> bool {
    let t = sorted_sample(sample);
    exists|i: int|
        0 <= i < t.len() && #[trigger] inside(lower_fence2(t), upper_fence2(t))(t[i]) && 100
            * t[i] >= upper_quartile_of(t)
}

/// The five numbers of a summary are in ascending order:
/// `minimum <= Q1 <= median <= Q3 <= maximum`.
///
/// Stated for samples where some value within the fences reaches the box on
/// each side. Without that the outer links can fail: in `[0, 100, 100, 100]`
/// the value `0` lies below the lower fence, so the minimum `100` exceeds the
/// first quartile `75`. The requirement leaves out exactly such samples (see
/// `lemma_outer_links_need_reach`); the inner links hold of every sample (see
/// `lemma_summary_core_ordered`).
pub proof fn lemma_summary_ordered(sample: Seq<i64>)
    requires
        sample.len() > 0,
        reaches_lower_quartile(sample),
        reaches_upper_quartile(sample),
    ensures
        100 * summary(sample).minimum <= summary(sample).lower_quartile,
        summary(sample).lower_quartile <= summary(sample).median,
        summary(sample).median <= summary(sample).upper_quartile,
        summary(sample).upper_quartile <= 100 * summary(sample).maximum,
{
    lemma_summary_core_ordered(sample);
    let t = sorted_sample(sample);
    let pred = inside(lower_fence2(t), upper_fence2(t));
    let inl = inliers_of(t);
    lemma_sorted_sample(sample);
    lemma_filter_ascending(t, pred);
    broadcast use vstd::seq_lib::group_filter_ensures;

    let i = choose|i: int|
        0 <= i < t.len() && #[trigger] pred(t[i]) && 100 * t[i] <= lower_quartile_of(t);
    assert(inl.contains(t[i]));
    let k = choose|k: int| 0 <= k < inl.len() && inl[k] == t[i];
    assert(inl[0] <= inl[k]);
    let j = choose|j: int|
        0 <= j < t.len() && #[trigger] pred(t[j]) && 100 * t[j] >= upper_quartile_of(t);
    assert(inl.contains(t[j]));
    let k2 = choose|k2: int| 0 <= k2 < inl.len() && inl[k2] == t[j];
    assert(inl[k2] <= inl[inl.len() - 1]);
}

/// The outer links of the ordering need the reach that
/// `lemma_summary_ordered` asks for: where the minimum is at or below the
/// first quartile, a value within the fences reaches it, and likewise above
/// the third quartile.
pub proof fn lemma_outer_links_need_reach(sample: Seq<i64>)
    requires
        sample.len() > 0,
    ensures
        100 * summary(sample).minimum <= summary(sample).lower_quartile ==> reaches_lower_quartile(
            sample,
        ),
        summary(sample).upper_quartile <= 100 * summary(sample).maximum ==> reaches_upper_quartile(
            sample,
        ),
{
    broadcast use vstd::seq_lib::group_filter_ensures;

    let t = sorted_sample(sample);
    let pred = inside(lower_fence2(t), upper_fence2(t));
    let inl = inliers_of(t);
    lemma_sorted_sample(sample);
    lemma_inliers_nonempty(t);
    lemma_filter_ascending(t, pred);
    assert(pred(inl[0]));
    assert(t.contains(inl[0]));
    let i = choose|i: int| 0 <= i < t.len() && t[i] == inl[0];
    assert(pred(t[i]));
    let last = inl.len() - 1;
    assert(pred(inl[last]));
    assert(t.contains(inl[last]));
    let j = choose|j: int| 0 <= j < t.len() && t[j] == inl[last];
    assert(pred(t[j]));
}

/// Whatever the sample, `Q1 <= median <= Q3` and `minimum <= maximum`.
pub proof fn lemma_summary_core_ordered(sample: Seq<i64>)
    requires
        sample.len() > 0,
    ensures
        summary(sample).lower_quartile <= summary(sample).median,
        summary(sample).median <= summary(sample).upper_quartile,
        summary(sample).minimum <= summary(sample).maximum,
{
    let t = sorted_sample(sample);
    lemma_sorted_sample(sample);
    lemma_percentile_monotone(t, 25, 50);
    lemma_percentile_monotone(t, 50, 75);
    lemma_inliers_nonempty(t);
    lemma_filter_ascending(t, inside(lower_fence2(t), upper_fence2(t)));
}

/// The summary does not depend on the order of the sample: two samples that
/// hold the same values, each as many times, have the same summary.
pub proof fn lemma_summary_order_invariant(a: Seq<i64>, b: Seq<i64>)
    requires
        a.to_multiset() == b.to_multiset(),
    ensures
        summary(a) == summary(b),
{
    lemma_sorted_sample(a);
    lemma_sorted_sample_unique(b, sorted_sample(a));
}

/// Sorts `v` in ascending order.
/// Relies on `slice::sort_unstable`: the result is ascending and a
/// permutation of the input.
#[verifier::external_body]
fn sort_ascending(v: &mut Vec<i64>)
    ensures
        is_ascending(final(v)@),
        final(v)@.to_multiset() == old(v)@.to_multiset(),
{
    v.sort_unstable();
}

/// Summary of a sample: five numbers and the values outside the fences.
pub struct BoxplotData {
    minimum: i64,
    lower_quartile: i128,
    median: i128,
    upper_quartile: i128,
    maximum: i64,
    outliers: Vec<i64>,
}

impl View for BoxplotData {
    type V = Summary;

    closed spec fn view(&self) -> Summary {
        Summary {
            minimum: self.minimum as int,
            lower_quartile: self.lower_quartile as int,
            median: self.median as int,
            upper_quartile: self.upper_quartile as int,
            maximum: self.maximum as int,
            outliers: self.outliers@,
        }
    }
}

impl BoxplotData {
    /// The five numbers `[minimum, Q1, median, Q3, maximum]`, all in
    /// hundredths of a sample unit.
    pub fn values(&self) -> (r: [i128; 5])
        ensures
            r[0] == 100 * self@.minimum,
            r[1] == self@.lower_quartile,
            r[2] == self@.median,
            r[3] == self@.upper_quartile,
            r[4] == 100 * self@.maximum,
    {
        let r = [
            100 * (self.minimum as i128),
            self.lower_quartile,
            self.median,
            self.upper_quartile,
            100 * (self.maximum as i128),
        ];
        r
    }

    /// The values outside the fences, in ascending order.
    pub fn outliers(&self) -> (r: &Vec<i64>)
        ensures
            r@ == self@.outliers,
    {
        &self.outliers
    }

    /// Summarizes a non-empty sample: sorts a copy, takes the quartiles by
    /// interpolation, and splits the values by Tukey's fences.
    pub fn new(values: &[i64]) -> (r: Self)
        requires
            values@.len() > 0,
        ensures
            r@ == summary(values@),
    {
        let mut sorted: Vec<i64> = Vec::new();
        let mut i: usize = 0;
        while i < values.len()
            invariant
                0 <= i <= values@.len(),
                sorted@ == values@.take(i as int),
            decreases values@.len() - i,
        {
            sorted.push(values[i]);
            i += 1;
            assert(sorted@ =~= values@.take(i as int));
        }
        assert(sorted@ =~= values@);
        sort_ascending(&mut sorted);
        let ghost ss = sorted@;
        proof {
            lemma_sorted_sample_unique(values@, ss);
            ss.to_multiset_ensures();
            values@.to_multiset_ensures();
            lemma_sorted_sample(values@);
            lemma_percentile_range(ss, 25);
            lemma_percentile_range(ss, 75);
        }
        let lower = percentile_of_sorted(sorted.as_slice(), 25);
        let median = percentile_of_sorted(sorted.as_slice(), 50);
        let upper = percentile_of_sorted(sorted.as_slice(), 75);
        let lf2 = 5 * lower - 3 * upper;
        let uf2 = 5 * upper - 3 * lower;
        let ghost out_pred = outside(lf2 as int, uf2 as int);
        let ghost in_pred = inside(lf2 as int, uf2 as int);
        let mut outliers: Vec<i64> = Vec::new();
        let mut minimum: Option<i64> = None;
        let mut maximum: Option<i64> = None;
        let mut i: usize = 0;
        while i < sorted.len()
            invariant
                ss == sorted@,
                0 <= i <= ss.len(),
                outliers@ == ss.take(i as int).filter(out_pred),
                ss.take(i as int).filter(in_pred).len() > 0 ==> minimum == Some(
                    ss.take(i as int).filter(in_pred).first(),
                ) && maximum == Some(ss.take(i as int).filter(in_pred).last()),
                ss.take(i as int).filter(in_pred).len() == 0 ==> minimum is None,
                out_pred == outside(lf2 as int, uf2 as int),
                in_pred == inside(lf2 as int, uf2 as int),
            decreases ss.len() - i,
        {
            let v = sorted[i];
            let ghost pre = ss.take(i as int);
            proof {
                assert(ss.take(i + 1) =~= pre.push(v));
                pre.lemma_filter_push(v, out_pred);
                pre.lemma_filter_push(v, in_pred);
            }
            let x = v as i128;
            if 200 * x < lf2 || 200 * x > uf2 {
                outliers.push(v);
            } else {
                if minimum.is_none() {
                    minimum = Some(v);
                }
                maximum = Some(v);
            }
            i += 1;
        }
        proof {
            assert(ss.take(ss.len() as int) =~= ss);
            lemma_inliers_nonempty(ss);
        }
        BoxplotData {
            minimum: minimum.unwrap(),
            lower_quartile: lower,
            median,
            upper_quartile: upper,
            maximum: maximum.unwrap(),
            outliers,
        }
    }
}

} // verus!
