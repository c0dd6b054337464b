use vstd::prelude::*;

use vstd::arithmetic::div_mod::{
    lemma_div_is_ordered, lemma_div_multiples_vanish, lemma_fundamental_div_mod,
    lemma_fundamental_div_mod_converse_div, lemma_multiply_divide_lt,
};

verus! {

/// A CIELAB value in hundredths (L in [0, 10000] for real colors, a and b
/// roughly within ±12800).
#[derive(Clone, Copy, Debug, PartialEq, Eq, Structural)]
pub struct Lab {
    pub l: i32,
    pub a: i32,
    pub b: i32,
}

/// Bound on each Lab coordinate that keeps the clustering arithmetic exact.
pub const LAB_BOUND: i32 = 1000000;

/// Upper bound on the number of relocation rounds of the clustering.
pub const MAX_ITERATIONS: usize = 50;

/// Squared centroid movement (in hundredths squared) below which clustering stops.
pub const CONVERGENCE: i64 = 1;

/// One cluster of pixels: its centroid and how many pixels it holds. Its weight
/// is `count` divided by the number of pixels clustered.
#[derive(Clone, Copy, Debug, PartialEq, Eq, Structural)]
pub struct Cluster {
    pub centroid: Lab,
    pub count: usize,
}

impl Lab {
    pub open spec fn wf(self) -> bool {
        &&& -LAB_BOUND <= self.l <= LAB_BOUND
        &&& -LAB_BOUND <= self.a <= LAB_BOUND
        &&& -LAB_BOUND <= self.b <= LAB_BOUND
    }

    pub fn new(l: i32, a: i32, b: i32) -> (r: Lab)
        ensures
            r == (Lab { l, a, b }),
    {
        Lab { l, a, b }
    }
}

pub open spec fn all_wf(s: Seq<Lab>) -> bool {
    forall|i: int| 0 <= i < s.len() ==> (#[trigger] s[i]).wf()
}

/// Squared Euclidean distance in Lab space.
pub open spec fn sq_dist(p: Lab, q: Lab) -> int {
    (p.l - q.l) * (p.l - q.l) + (p.a - q.a) * (p.a - q.a) + (p.b - q.b) * (p.b - q.b)
}

/// Sum of a sequence of counts.
pub open spec fn sum_counts(s: Seq<usize>) -> int
    decreases s.len(),
{
    if s.len() == 0 {
        0
    } else {
        sum_counts(s.drop_last()) + s.last()
    }
}

/// Total number of pixels held by a sequence of clusters.
pub open spec fn total_count(cs: Seq<Cluster>) -> int
    decreases cs.len(),
{
    if cs.len() == 0 {
        0
    } else {
        total_count(cs.drop_last()) + cs.last().count
    }
}

/// The clusters with at least one pixel, in index order, from parallel
/// sequences of centroids and counts.
pub open spec fn clusters_of(cents: Seq<Lab>, counts: Seq<usize>) -> Seq<Cluster>
    decreases counts.len(),
{
    if counts.len() == 0 || cents.len() == 0 {
        Seq::empty()
    } else {
        let rest = clusters_of(cents.drop_last(), counts.drop_last());
        if counts.last() > 0 {
            rest.push(Cluster { centroid: cents.last(), count: counts.last() })
        } else {
            rest
        }
    }
}

/// `j` is the first centroid nearest to `p`.
pub open spec fn is_nearest(p: Lab, cents: Seq<Lab>, j: int) -> bool {
    &&& 0 <= j < cents.len()
    &&& forall|i: int| 0 <= i < cents.len() ==> sq_dist(p, cents[j]) <= sq_dist(p, #[trigger] cents[i])
    &&& forall|i: int| 0 <= i < j ==> sq_dist(p, cents[j]) < sq_dist(p, #[trigger] cents[i])
}

proof fn lemma_sum_counts_bump(s: Seq<usize>, j: int)
    requires
        0 <= j < s.len(),
        s[j] < usize::MAX,
    ensures
        sum_counts(s.update(j, (s[j] + 1) as usize)) == sum_counts(s) + 1,
    decreases s.len(),
{
    let t = s.update(j, (s[j] + 1) as usize);
    if j == s.len() - 1 {
        assert(t.drop_last() =~= s.drop_last());
    } else {
        assert(t.drop_last() =~= s.drop_last().update(j, (s[j] + 1) as usize));
        lemma_sum_counts_bump(s.drop_last(), j);
    }
}

proof fn lemma_sum_counts_zeros(n: nat)
    ensures
        sum_counts(Seq::new(n, |i: int| 0usize)) == 0,
    decreases n,
{
    if n > 0 {
        assert(Seq::new(n, |i: int| 0usize).drop_last() =~= Seq::new((n - 1) as nat, |i: int| 0usize));
        lemma_sum_counts_zeros((n - 1) as nat);
    }
}

proof fn lemma_sum_counts_bound(s: Seq<usize>)
    ensures
        sum_counts(s) >= 0,
        forall|i: int| 0 <= i < s.len() ==> s[i] <= sum_counts(s),
    decreases s.len(),
{
    if s.len() > 0 {
        lemma_sum_counts_bound(s.drop_last());
        assert forall|i: int| 0 <= i < s.len() implies s[i] <= sum_counts(s) by {
            if i < s.len() - 1 {
                assert(s[i] == s.drop_last()[i]);
            }
        }
    }
}

/// Squared Lab distance between two bounded points.
pub fn squared_distance(p: Lab, q: Lab) -> (d: i64)
    requires
        p.wf(),
        q.wf(),
    ensures
        d == sq_dist(p, q),
        0 <= d <= 12_000_000_000_000,
{
    let dl: i64 = p.l as i64 - q.l as i64;
    let da: i64 = p.a as i64 - q.a as i64;
    let db: i64 = p.b as i64 - q.b as i64;
    assert(0 <= dl * dl <= 4_000_000_000_000) by (nonlinear_arith)
        requires
            -2_000_000 <= dl <= 2_000_000,
    ;
    assert(0 <= da * da <= 4_000_000_000_000) by (nonlinear_arith)
        requires
            -2_000_000 <= da <= 2_000_000,
    ;
    assert(0 <= db * db <= 4_000_000_000_000) by (nonlinear_arith)
        requires
            -2_000_000 <= db <= 2_000_000,
    ;
    dl * dl + da * da + db * db
}

/// `min(k, n)` centroids taken from the pixels at evenly spaced indices
/// `i * n / min(k, n)`: the same input always gives the same start.
pub fn initial_centroids(pixels: &Vec<Lab>, k: usize) -> (r: Vec<Lab>)
    requires
        all_wf(pixels@),
    ensures
        r.len() == if k <= pixels.len() { k } else { pixels.len() },
        all_wf(r@),
{
    let n = pixels.len();
    let m: usize = if k <= n { k } else { n };
    let mut r: Vec<Lab> = Vec::new();
    let mut i: usize = 0;
    while i < m
        invariant
            m <= n == pixels.len(),
            i <= m,
            r.len() == i,
            all_wf(pixels@),
            all_wf(r@),
        decreases m - i,
    {
        assert((i as int) * (n as int) < (m as int) * (n as int) <= 0xffff_ffff_ffff_ffff * 0xffff_ffff_ffff_ffff)
            by (nonlinear_arith)
            requires
                (i as int) < (m as int),
                (m as int) <= (n as int),
                (n as int) <= 0xffff_ffff_ffff_ffff,
        ;
        let idx: u128 = (i as u128) * (n as u128) / (m as u128);
        assert(idx < n) by {
            lemma_multiply_divide_lt((i as int) * (n as int), m as int, n as int);
        }
        r.push(pixels[idx as usize]);
        i += 1;
    }
    r
}

/// Index of the first centroid nearest to `p`.
pub fn nearest_centroid(p: Lab, cents: &Vec<Lab>) -> (j: usize)
    requires
        p.wf(),
        all_wf(cents@),
        cents.len() > 0,
    ensures
        is_nearest(p, cents@, j as int),
{
    let mut best: usize = 0;
    let mut best_d = squared_distance(p, cents[0]);
    let mut i: usize = 1;
    while i < cents.len()
        invariant
            p.wf(),
            all_wf(cents@),
            1 <= i <= cents.len(),
            best < i,
            best_d == sq_dist(p, cents@[best as int]),
            forall|m: int| 0 <= m < i ==> best_d <= sq_dist(p, #[trigger] cents@[m]),
            forall|m: int| 0 <= m < best ==> best_d < sq_dist(p, #[trigger] cents@[m]),
        decreases cents.len() - i,
    {
        let d = squared_distance(p, cents[i]);
        if d < best_d {
            best = i;
            best_d = d;
        }
        i += 1;
    }
    best
}

/// Each pixel's nearest centroid.
pub fn assign_labels(pixels: &Vec<Lab>, cents: &Vec<Lab>) -> (labels: Vec<usize>)
    requires
        all_wf(pixels@),
        all_wf(cents@),
        cents.len() > 0,
    ensures
        labels.len() == pixels.len(),
        forall|i: int| 0 <= i < pixels.len() ==> is_nearest(pixels@[i], cents@, #[trigger] labels@[i] as int),
{
    let mut labels: Vec<usize> = Vec::new();
    let mut i: usize = 0;
    while i < pixels.len()
        invariant
            all_wf(pixels@),
            all_wf(cents@),
            cents.len() > 0,
            i <= pixels.len(),
            labels.len() == i,
            forall|m: int| 0 <= m < i ==> is_nearest(pixels@[m], cents@, #[trigger] labels@[m] as int),
        decreases pixels.len() - i,
    {
        labels.push(nearest_centroid(pixels[i], cents));
        i += 1;
    }
    labels
}

/// Coordinate `axis` of a Lab value (0 = L, 1 = a, 2 = b).
pub open spec fn coord(p: Lab, axis: int) -> int {
    if axis == 0 {
        p.l as int
    } else if axis == 1 {
        p.a as int
    } else {
        p.b as int
    }
}

/// Number of the first `n` pixels labelled `j`.
pub open spec fn label_count(labels: Seq<usize>, j: int, n: int) -> int
    decreases n,
{
    if n <= 0 {
        0
    } else {
        label_count(labels, j, n - 1) + if labels[n - 1] == j { 1int } else { 0int }
    }
}

/// Sum of coordinate `axis` over the first `n` pixels labelled `j`.
pub open spec fn label_sum(pixels: Seq<Lab>, labels: Seq<usize>, j: int, axis: int, n: int) -> int
    decreases n,
{
    if n <= 0 {
        0
    } else {
        label_sum(pixels, labels, j, axis, n - 1) + if labels[n - 1] == j {
            coord(pixels[n - 1], axis)
        } else {
            0
        }
    }
}

/// The centroid of the pixels labelled `j`: each coordinate is the mean of the
/// members' coordinates, rounded down.
pub open spec fn is_mean(c: Lab, pixels: Seq<Lab>, labels: Seq<usize>, j: int) -> bool {
    let n = label_count(labels, j, pixels.len() as int);
    forall|axis: int| 0 <= axis < 3 ==> #[trigger] coord(c, axis) == label_sum(pixels, labels, j, axis, pixels.len() as int) / n
}

/// `sum / count` rounded down, for a sum of `count` bounded coordinates.
fn floor_mean(sum: i128, count: usize) -> (r: i32)
    requires
        count > 0,
        -(count * LAB_BOUND) <= sum <= count * LAB_BOUND,
    ensures
        r == (sum as int) / (count as int),
        -LAB_BOUND <= r <= LAB_BOUND,
{
    let c = count as i128;
    let shifted: i128 = sum + c * (LAB_BOUND as i128);
    let q = shifted / c;
    proof {
        let ci = count as int;
        let si = sum as int;
        let b = LAB_BOUND as int;
        let q0 = si / ci;
        let r0 = si % ci;
        lemma_fundamental_div_mod(si, ci);
        assert(shifted as int == ci * (q0 + b) + r0) by (nonlinear_arith)
            requires
                shifted as int == si + ci * b,
                si == ci * q0 + r0,
        ;
        lemma_fundamental_div_mod_converse_div(shifted as int, ci, q0 + b, r0);
        lemma_div_is_ordered(si, ci * b, ci);
        lemma_div_multiples_vanish(b, ci);
        lemma_div_is_ordered(ci * (-b), si, ci);
        lemma_div_multiples_vanish(-b, ci);
    }
    (q - LAB_BOUND as i128) as i32
}

/// Recomputes each centroid as the mean of the pixels labelled with its index;
/// a centroid with no pixels is kept. Also returns each centroid's pixel count.
pub fn update_centroids(pixels: &Vec<Lab>, labels: &Vec<usize>, cents: &Vec<Lab>) -> (r: (
    Vec<Lab>,
    Vec<usize>,
))
    requires
        all_wf(pixels@),
        all_wf(cents@),
        labels.len() == pixels.len(),
        forall|i: int| 0 <= i < labels.len() ==> #[trigger] labels@[i] < cents.len(),
    ensures
        r.0.len() == cents.len(),
        r.1.len() == cents.len(),
        all_wf(r.0@),
        sum_counts(r.1@) == pixels.len(),
        forall|j: int| 0 <= j < cents.len() ==> #[trigger] r.1@[j] == label_count(labels@, j, pixels.len() as int),
        forall|j: int| 0 <= j < cents.len() && r.1@[j] > 0 ==> is_mean(#[trigger] r.0@[j], pixels@, labels@, j),
        forall|j: int| 0 <= j < cents.len() && r.1@[j] == 0 ==> #[trigger] r.0@[j] == cents@[j],
{
    let k = cents.len();
    let mut sl: Vec<i128> = Vec::new();
    let mut sa: Vec<i128> = Vec::new();
    let mut sb: Vec<i128> = Vec::new();
    let mut counts: Vec<usize> = Vec::new();
    let mut j: usize = 0;
    while j < k
        invariant
            j <= k == cents.len(),
            sl.len() == j,
            sa.len() == j,
            sb.len() == j,
            counts@ == Seq::new(j as nat, |m: int| 0usize),
            forall|m: int| 0 <= m < j ==> #[trigger] sl@[m] == 0,
            forall|m: int| 0 <= m < j ==> #[trigger] sa@[m] == 0,
            forall|m: int| 0 <= m < j ==> #[trigger] sb@[m] == 0,
        decreases k - j,
    {
        sl.push(0);
        sa.push(0);
        sb.push(0);
        counts.push(0);
        j += 1;
        assert(counts@ =~= Seq::new(j as nat, |m: int| 0usize));
    }
    proof {
        lemma_sum_counts_zeros(k as nat);
    }
    let n = pixels.len();
    let mut i: usize = 0;
    while i < n
        invariant
            n == pixels.len() == labels.len(),
            k == cents.len(),
            i <= n,
            all_wf(pixels@),
            forall|m: int| 0 <= m < labels.len() ==> #[trigger] labels@[m] < k,
            sl.len() == k,
            sa.len() == k,
            sb.len() == k,
            counts.len() == k,
            sum_counts(counts@) == i,
            forall|m: int| 0 <= m < k ==> #[trigger] counts@[m] == label_count(labels@, m, i as int),
            forall|m: int| 0 <= m < k ==> #[trigger] sl@[m] == label_sum(pixels@, labels@, m, 0, i as int),
            forall|m: int| 0 <= m < k ==> #[trigger] sa@[m] == label_sum(pixels@, labels@, m, 1, i as int),
            forall|m: int| 0 <= m < k ==> #[trigger] sb@[m] == label_sum(pixels@, labels@, m, 2, i as int),
            forall|m: int| 0 <= m < k ==> {
                &&& -(counts@[m] * LAB_BOUND) <= #[trigger] sl@[m] <= counts@[m] * LAB_BOUND
                &&& -(counts@[m] * LAB_BOUND) <= sa@[m] <= counts@[m] * LAB_BOUND
                &&& -(counts@[m] * LAB_BOUND) <= sb@[m] <= counts@[m] * LAB_BOUND
            },
        decreases n - i,
    {
        let lab = labels[i];
        let p = pixels[i];
        proof {
            lemma_sum_counts_bound(counts@);
            assert(p.wf());
        }
        let old_counts = Ghost(counts@);
        let c = counts[lab];
        counts.set(lab, c + 1);
        proof {
            lemma_sum_counts_bump(old_counts@, lab as int);
        }
        let vl = sl[lab];
        sl.set(lab, vl + p.l as i128);
        let va = sa[lab];
        sa.set(lab, va + p.a as i128);
        let vb = sb[lab];
        sb.set(lab, vb + p.b as i128);
        i += 1;
    }
    let mut out: Vec<Lab> = Vec::new();
    let mut j: usize = 0;
    while j < k
        invariant
            j <= k == cents.len() == counts.len() == sl.len() == sa.len() == sb.len(),
            n == pixels.len(),
            out.len() == j,
            all_wf(cents@),
            all_wf(out@),
            forall|m: int| 0 <= m < k ==> #[trigger] counts@[m] == label_count(labels@, m, n as int),
            forall|m: int| 0 <= m < k ==> #[trigger] sl@[m] == label_sum(pixels@, labels@, m, 0, n as int),
            forall|m: int| 0 <= m < k ==> #[trigger] sa@[m] == label_sum(pixels@, labels@, m, 1, n as int),
            forall|m: int| 0 <= m < k ==> #[trigger] sb@[m] == label_sum(pixels@, labels@, m, 2, n as int),
            forall|m: int| 0 <= m < k ==> {
                &&& -(counts@[m] * LAB_BOUND) <= #[trigger] sl@[m] <= counts@[m] * LAB_BOUND
                &&& -(counts@[m] * LAB_BOUND) <= sa@[m] <= counts@[m] * LAB_BOUND
                &&& -(counts@[m] * LAB_BOUND) <= sb@[m] <= counts@[m] * LAB_BOUND
            },
            forall|m: int| 0 <= m < j && counts@[m] > 0 ==> is_mean(#[trigger] out@[m], pixels@, labels@, m),
            forall|m: int| 0 <= m < j && counts@[m] == 0 ==> #[trigger] out@[m] == cents@[m],
        decreases k - j,
    {
        let c = counts[j];
        if c == 0 {
            out.push(cents[j]);
        } else {
            let m = Lab::new(floor_mean(sl[j], c), floor_mean(sa[j], c), floor_mean(sb[j], c));
            assert(is_mean(m, pixels@, labels@, j as int)) by {
                assert forall|axis: int| 0 <= axis < 3 implies #[trigger] coord(m, axis) == label_sum(
                    pixels@,
                    labels@,
                    j as int,
                    axis,
                    n as int,
                ) / label_count(labels@, j as int, n as int) by {
                    if axis == 0 {
                    } else if axis == 1 {
                    } else {
                    }
                }
            }
            out.push(m);
        }
        j += 1;
    }
    (out, counts)
}

/// The largest squared distance between corresponding centroids of `a` and `b`.
pub fn max_movement(a: &Vec<Lab>, b: &Vec<Lab>) -> (r: i64)
    requires
        a.len() == b.len(),
        all_wf(a@),
        all_wf(b@),
    ensures
        r >= 0,
        forall|j: int| 0 <= j < a.len() ==> sq_dist(#[trigger] a@[j], b@[j]) <= r,
        r == 0 || exists|j: int| 0 <= j < a.len() && sq_dist(#[trigger] a@[j], b@[j]) == r,
{
    let mut r: i64 = 0;
    let mut j: usize = 0;
    while j < a.len()
        invariant
            a.len() == b.len(),
            all_wf(a@),
            all_wf(b@),
            j <= a.len(),
            r >= 0,
            forall|m: int| 0 <= m < j ==> sq_dist(#[trigger] a@[m], b@[m]) <= r,
            r == 0 || exists|m: int| 0 <= m < j && sq_dist(#[trigger] a@[m], b@[m]) == r,
        decreases a.len() - j,
    {
        let d = squared_distance(a[j], b[j]);
        if d > r {
            r = d;
        }
        j += 1;
    }
    r
}

/// The clusters that hold at least one pixel, in centroid order.
pub fn nonempty_clusters(cents: &Vec<Lab>, counts: &Vec<usize>) -> (r: Vec<Cluster>)
    requires
        cents.len() == counts.len(),
    ensures
        r.len() <= counts.len(),
        total_count(r@) == sum_counts(counts@),
        forall|j: int| 0 <= j < r.len() ==> (#[trigger] r@[j]).count > 0,
        forall|j: int|
            0 <= j < r.len() ==> exists|i: int|
                0 <= i < counts.len() && #[trigger] r@[j] == (Cluster { centroid: cents@[i], count: counts@[i] }),
        r@ == clusters_of(cents@, counts@),
{
    let mut r: Vec<Cluster> = Vec::new();
    let mut i: usize = 0;
    while i < counts.len()
        invariant
            cents.len() == counts.len(),
            i <= counts.len(),
            r.len() <= i,
            total_count(r@) == sum_counts(counts@.subrange(0, i as int)),
            r@ == clusters_of(cents@.subrange(0, i as int), counts@.subrange(0, i as int)),
            forall|j: int| 0 <= j < r.len() ==> (#[trigger] r@[j]).count > 0,
            forall|j: int|
                0 <= j < r.len() ==> exists|m: int|
                    0 <= m < counts.len() && #[trigger] r@[j] == (Cluster { centroid: cents@[m], count: counts@[m] }),
        decreases counts.len() - i,
    {
        let old_r = Ghost(r@);
        if counts[i] > 0 {
            r.push(Cluster { centroid: cents[i], count: counts[i] });
            assert(r@.drop_last() =~= old_r@);
            assert forall|j: int|
                0 <= j < r.len() implies exists|m: int|
                    0 <= m < counts.len() && #[trigger] r@[j] == (Cluster { centroid: cents@[m], count: counts@[m] }) by {
                if j < r.len() - 1 {
                    assert(r@[j] == old_r@[j]);
                } else {
                    assert(r@[j] == (Cluster { centroid: cents@[i as int], count: counts@[i as int] }));
                }
            }
        }
        assert(counts@.subrange(0, i + 1).drop_last() =~= counts@.subrange(0, i as int));
        assert(cents@.subrange(0, i + 1).drop_last() =~= cents@.subrange(0, i as int));
        i += 1;
    }
    assert(counts@.subrange(0, counts.len() as int) =~= counts@);
    assert(cents@.subrange(0, cents.len() as int) =~= cents@);
    r
}

/// One relocation round from `cents`: every pixel is labelled with its nearest
/// centroid, `counts[j]` is the number of pixels labelled `j`, and `means[j]` is
/// their mean (or `cents[j]` when there are none).
pub open spec fn is_round(
    pixels: Seq<Lab>,
    cents: Seq<Lab>,
    labels: Seq<usize>,
    means: Seq<Lab>,
    counts: Seq<usize>,
) -> bool {
    &&& labels.len() == pixels.len()
    &&& means.len() == cents.len()
    &&& counts.len() == cents.len()
    &&& forall|i: int| 0 <= i < pixels.len() ==> is_nearest(pixels[i], cents, #[trigger] labels[i] as int)
    &&& forall|j: int| 0 <= j < cents.len() ==> #[trigger] counts[j] == label_count(labels, j, pixels.len() as int)
    &&& forall|j: int| 0 <= j < cents.len() && counts[j] > 0 ==> is_mean(#[trigger] means[j], pixels, labels, j)
    &&& forall|j: int| 0 <= j < cents.len() && counts[j] == 0 ==> #[trigger] means[j] == cents[j]
}

/// Partitions the pixels into at most `k` clusters by k-means: centroids start
/// at evenly spaced pixels, then each round labels every pixel with its nearest
/// centroid and moves each centroid to the mean of its pixels, until no centroid
/// moves by more than `CONVERGENCE` or `MAX_ITERATIONS` rounds have run. Empty
/// clusters are dropped. The counts add up to the number of pixels, so the
/// weights `count / pixels.len()` add up to one.
pub fn cluster_pixels(pixels: &Vec<Lab>, k: usize) -> (r: Vec<Cluster>)
    requires
        all_wf(pixels@),
    ensures
        r.len() <= k,
        r.len() <= pixels.len(),
        k > 0 ==> total_count(r@) == pixels.len(),
        forall|j: int| 0 <= j < r.len() ==> (#[trigger] r@[j]).count > 0 && r@[j].centroid.wf(),
        k > 0 && pixels.len() > 0 ==> exists|cents: Seq<Lab>, labels: Seq<usize>, means: Seq<Lab>, counts: Seq<usize>|
            is_round(pixels@, cents, labels, means, counts) && cents.len() == (if k <= pixels.len() {
                k as int
            } else {
                pixels.len() as int
            }) && r@ == clusters_of(means, counts),
{
    if k == 0 || pixels.len() == 0 {
        return Vec::new();
    }
    let n = pixels.len();
    let mut cents = initial_centroids(pixels, k);
    let mut labels = assign_labels(pixels, &cents);
    let (mut next, mut counts) = update_centroids(pixels, &labels, &cents);
    let mut moved = max_movement(&cents, &next);
    let mut iter: usize = 1;
    while iter < MAX_ITERATIONS && moved > CONVERGENCE
        invariant
            n == pixels.len(),
            all_wf(pixels@),
            0 < cents.len() <= k,
            cents.len() <= n,
            next.len() == cents.len(),
            counts.len() == cents.len(),
            labels.len() == n,
            all_wf(cents@),
            all_wf(next@),
            cents.len() == (if k <= n { k } else { n }),
            is_round(pixels@, cents@, labels@, next@, counts@),
            sum_counts(counts@) == n,
            forall|j: int| 0 <= j < cents.len() ==> #[trigger] counts@[j] == label_count(labels@, j, n as int),
            forall|j: int| 0 <= j < cents.len() && counts@[j] > 0 ==> is_mean(#[trigger] next@[j], pixels@, labels@, j),
        decreases MAX_ITERATIONS - iter,
    {
        cents = next;
        labels = assign_labels(pixels, &cents);
        let (a, b) = update_centroids(pixels, &labels, &cents);
        moved = max_movement(&cents, &a);
        next = a;
        counts = b;
        iter += 1;
    }
    let r = nonempty_clusters(&next, &counts);
    assert forall|j: int| 0 <= j < r.len() implies (#[trigger] r@[j]).count > 0 && r@[j].centroid.wf() by {
        let i = choose|i: int| 0 <= i < counts.len() && r@[j] == (Cluster { centroid: next@[i], count: counts@[i] });
    }
    r
}

} // verus!
