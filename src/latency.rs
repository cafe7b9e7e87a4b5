//! Statistics over a finished run's latencies, in whole milliseconds.
use vstd::prelude::*;

verus! {

/// Number of equal-width buckets in the latency histogram.
pub const BUCKET_COUNT: usize = 10;

pub open spec fn is_sorted(s: Seq<u64>) -> bool {
    forall|i: int, j: int| 0 <= i <= j < s.len() ==> s[i] <= s[j]
}

/// Nearest-rank index: `floor(p / 100 * n)`, clamped to the last position.
pub open spec fn rank_index(p: nat, n: nat) -> nat {
    let k = p * n / 100;
    if k < n {
        k
    } else {
        (n - 1) as nat
    }
}

/// Bucket of `v` when the buckets split `[0, max]` into equal parts:
/// `floor(v / (max / 10))`, clamped to the last bucket. With `max == 0` the
/// width is zero and every value lands in the last bucket.
pub open spec fn bucket_of(v: u64, max: u64) -> nat {
    if max == 0 {
        (BUCKET_COUNT - 1) as nat
    } else {
        let b = (BUCKET_COUNT as nat) * (v as nat) / (max as nat);
        if b < BUCKET_COUNT {
            b
        } else {
            (BUCKET_COUNT - 1) as nat
        }
    }
}

/// How many values of `s` fall in bucket `b`.
pub open spec fn bucket_count(s: Seq<u64>, max: u64, b: nat) -> nat
    decreases s.len(),
{
    if s.len() == 0 {
        0
    } else {
        bucket_count(s.drop_last(), max, b) + if bucket_of(s.last(), max) == b {
            1nat
        } else {
            0nat
        }
    }
}

/// Sum of the counts of the buckets below `k`.
pub open spec fn counts_below(s: Seq<u64>, max: u64, k: nat) -> nat
    decreases k,
{
    if k == 0 {
        0
    } else {
        counts_below(s, max, (k - 1) as nat) + bucket_count(s, max, (k - 1) as nat)
    }
}

pub open spec fn seq_sum(s: Seq<u64>) -> nat
    decreases s.len(),
{
    if s.len() == 0 {
        0
    } else {
        seq_sum(s.drop_last()) + (s.last() as nat)
    }
}

pub open spec fn square_sum(s: Seq<u64>) -> nat
    decreases s.len(),
{
    if s.len() == 0 {
        0
    } else {
        square_sum(s.drop_last()) + (s.last() as nat) * (s.last() as nat)
    }
}

/// `n * n * variance` for the population variance of `s`, where `n` is the
/// number of values: `n * (sum of squares) - (sum)^2`.
pub open spec fn scaled_variance(s: Seq<u64>) -> int {
    (s.len() as int) * (square_sum(s) as int) - (seq_sum(s) as int) * (seq_sum(s) as int)
}

/// Sum of `(n * x - total)^2` over the values `x` of `s`.
pub open spec fn scaled_deviation_sum(s: Seq<u64>, n: int, total: int) -> int
    decreases s.len(),
{
    if s.len() == 0 {
        0
    } else {
        scaled_deviation_sum(s.drop_last(), n, total) + (n * s.last() - total) * (n * s.last()
            - total)
    }
}

/// Sorts latencies ascending.
///
/// Relies on `slice::sort_unstable`: the result is the same values in
/// non-decreasing order.
#[verifier::external_body]
fn sort_latencies(v: &mut Vec<u64>)
    ensures
        final(v)@.to_multiset() == old(v)@.to_multiset(),
        final(v)@.len() == old(v)@.len(),
        is_sorted(final(v)@),
{
    v.sort_unstable();
}

/// A copy of the values, in the same order.
pub fn copy_values(v: &Vec<u64>) -> (r: Vec<u64>)
    ensures
        r@ == v@,
{
    let mut out: Vec<u64> = Vec::new();
    let mut i: usize = 0;
    while i < v.len()
        invariant
            i <= v.len(),
            out@ == v@.take(i as int),
        decreases v.len() - i,
    {
        out.push(v[i]);
        i = i + 1;
        assert(out@ =~= v@.take(i as int));
    }
    assert(out@ =~= v@);
    out
}

/// The latencies in ascending order.
pub fn sorted_latencies(v: &Vec<u64>) -> (r: Vec<u64>)
    ensures
        r@.to_multiset() == v@.to_multiset(),
        r@.len() == v@.len(),
        is_sorted(r@),
{
    let mut out = copy_values(v);
    sort_latencies(&mut out);
    out
}

/// Nearest-rank percentile `p` of ascending latencies.
pub fn percentile(sorted_ms: &Vec<u64>, p: u64) -> (r: u64)
    requires
        sorted_ms.len() > 0,
    ensures
        r == sorted_ms@[rank_index(p as nat, sorted_ms.len() as nat) as int],
{
    let n = sorted_ms.len();
    assert((p as nat) * (n as nat) <= (u64::MAX as nat) * (u64::MAX as nat)) by (nonlinear_arith)
        requires
            p <= u64::MAX,
            n <= u64::MAX,
    ;
    let k: u128 = (p as u128) * (n as u128) / 100;
    let idx: usize = if k < n as u128 {
        k as usize
    } else {
        n - 1
    };
    sorted_ms[idx]
}

proof fn lemma_take_last(s: Seq<u64>, i: int)
    requires
        0 <= i < s.len(),
    ensures
        s.take(i + 1).drop_last() == s.take(i),
        s.take(i + 1).last() == s[i],
{
    assert(s.take(i + 1).drop_last() =~= s.take(i));
}

/// Index of the bucket of `v` for a largest latency `max`.
pub fn bucket_index(v: u64, max: u64) -> (r: usize)
    ensures
        r == bucket_of(v, max),
        r < BUCKET_COUNT,
{
    if max == 0 {
        BUCKET_COUNT - 1
    } else {
        assert((BUCKET_COUNT as nat) * (v as nat) <= 10 * (u64::MAX as nat)) by (nonlinear_arith)
            requires
                v <= u64::MAX,
        ;
        let b: u128 = (BUCKET_COUNT as u128) * (v as u128) / (max as u128);
        if b < BUCKET_COUNT as u128 {
            b as usize
        } else {
            BUCKET_COUNT - 1
        }
    }
}

/// Counts of latencies in each of the ten buckets spanning `[0, max]`, where
/// `max` is the last (largest) of the ascending latencies.
pub fn histogram(sorted_ms: &Vec<u64>) -> (r: Vec<usize>)
    requires
        sorted_ms.len() > 0,
    ensures
        r.len() == BUCKET_COUNT,
        forall|b: int|
            0 <= b < BUCKET_COUNT ==> r@[b] == bucket_count(
                sorted_ms@,
                sorted_ms@.last(),
                b as nat,
            ),
{
    let n = sorted_ms.len();
    let max = sorted_ms[n - 1];
    let mut counts: Vec<usize> = vec![0, 0, 0, 0, 0, 0, 0, 0, 0, 0];
    let mut i: usize = 0;
    while i < n
        invariant
            i <= n,
            n == sorted_ms.len(),
            max == sorted_ms@.last(),
            counts.len() == BUCKET_COUNT,
            forall|b: int|
                0 <= b < BUCKET_COUNT ==> counts@[b] == bucket_count(
                    sorted_ms@.take(i as int),
                    max,
                    b as nat,
                ),
            forall|b: int| 0 <= b < BUCKET_COUNT ==> counts@[b] <= i,
        decreases n - i,
    {
        let b = bucket_index(sorted_ms[i], max);
        proof {
            lemma_take_last(sorted_ms@, i as int);
        }
        counts.set(b, counts[b] + 1);
        i = i + 1;
    }
    assert(sorted_ms@.take(n as int) =~= sorted_ms@);
    counts
}

proof fn lemma_counts_below_step(s: Seq<u64>, max: u64, k: nat)
    requires
        s.len() > 0,
    ensures
        counts_below(s, max, k) == counts_below(s.drop_last(), max, k) + if bucket_of(
            s.last(),
            max,
        ) < k {
            1nat
        } else {
            0nat
        },
    decreases k,
{
    if k > 0 {
        lemma_counts_below_step(s, max, (k - 1) as nat);
    }
}

proof fn lemma_counts_total(s: Seq<u64>, max: u64)
    ensures
        counts_below(s, max, BUCKET_COUNT as nat) == s.len(),
    decreases s.len(),
{
    if s.len() == 0 {
        lemma_counts_empty(s, max, BUCKET_COUNT as nat);
    } else {
        lemma_counts_below_step(s, max, BUCKET_COUNT as nat);
        lemma_counts_total(s.drop_last(), max);
    }
}

proof fn lemma_counts_empty(s: Seq<u64>, max: u64, k: nat)
    requires
        s.len() == 0,
    ensures
        counts_below(s, max, k) == 0,
    decreases k,
{
    if k > 0 {
        lemma_counts_empty(s, max, (k - 1) as nat);
    }
}

/// The histogram's buckets together hold every latency exactly once, and the
/// largest latency lands in the last bucket, never past it.
pub proof fn lemma_histogram_partitions(s: Seq<u64>, max: u64)
    ensures
        counts_below(s, max, BUCKET_COUNT as nat) == s.len(),
        bucket_of(max, max) == BUCKET_COUNT - 1,
        forall|v: u64| bucket_of(v, max) < BUCKET_COUNT,
{
    lemma_counts_total(s, max);
    if max > 0 {
        assert((BUCKET_COUNT as nat) * (max as nat) / (max as nat) == BUCKET_COUNT as nat)
            by (nonlinear_arith)
            requires
                max > 0,
        ;
    }
}

/// Sum of the latencies.
pub fn latency_total(v: &Vec<u64>) -> (r: u128)
    ensures
        r == seq_sum(v@),
{
    let n = v.len();
    let mut acc: u128 = 0;
    let mut i: usize = 0;
    while i < n
        invariant
            i <= n,
            n == v.len(),
            n <= u64::MAX,
            acc == seq_sum(v@.take(i as int)),
            acc <= (i as nat) * (u64::MAX as nat),
        decreases n - i,
    {
        proof {
            lemma_take_last(v@, i as int);
        }
        acc = acc + v[i] as u128;
        i = i + 1;
    }
    assert(v@.take(n as int) =~= v@);
    acc
}

proof fn lemma_square_sum_prefix(s: Seq<u64>, i: int)
    requires
        0 <= i <= s.len(),
    ensures
        square_sum(s.take(i)) <= square_sum(s),
    decreases s.len(),
{
    if i < s.len() {
        assert(s.take(i) =~= s.drop_last().take(i));
        lemma_square_sum_prefix(s.drop_last(), i);
    } else {
        assert(s.take(i) =~= s);
    }
}

proof fn lemma_deviation_expansion(s: Seq<u64>, n: int, total: int)
    ensures
        scaled_deviation_sum(s, n, total) == n * n * (square_sum(s) as int) - 2 * n * total * (
        seq_sum(s) as int) + (s.len() as int) * total * total,
    decreases s.len(),
{
    if s.len() > 0 {
        lemma_deviation_expansion(s.drop_last(), n, total);
        let x = s.last() as int;
        let q = square_sum(s.drop_last()) as int;
        let m = seq_sum(s.drop_last()) as int;
        let k = s.drop_last().len() as int;
        assert(square_sum(s) as int == q + x * x);
        assert(seq_sum(s) as int == m + x);
        assert(s.len() as int == k + 1);
        let d = scaled_deviation_sum(s.drop_last(), n, total);
        assert(scaled_deviation_sum(s, n, total) == d + (n * x - total) * (n * x - total));
        let full_q = square_sum(s) as int;
        let full_m = seq_sum(s) as int;
        let full_k = s.len() as int;
        assert(d + (n * x - total) * (n * x - total) == n * n * full_q - 2 * n * total * full_m
            + full_k * total * total) by (nonlinear_arith)
            requires
                d == n * n * q - 2 * n * total * m + k * total * total,
                full_q == q + x * x,
                full_m == m + x,
                full_k == k + 1,
        ;
    } else {
        let q = square_sum(s) as int;
        let m = seq_sum(s) as int;
        assert(0 == n * n * q - 2 * n * total * m + 0 * total * total) by (nonlinear_arith)
            requires
                q == 0,
                m == 0,
        ;
    }
}

/// Population variance: with `n` values of sum `t`, the sum of
/// `(n * x - t)^2`, which is `n^2` times the sum of squared deviations from the
/// mean, equals `n * scaled_variance`; so the variance, which divides that sum
/// by `n`, is `scaled_variance / n^2`, and it is never negative.
pub proof fn lemma_population_variance(s: Seq<u64>)
    requires
        s.len() > 0,
    ensures
        scaled_deviation_sum(s, s.len() as int, seq_sum(s) as int) == (s.len() as int)
            * scaled_variance(s),
        scaled_variance(s) >= 0,
{
    let n = s.len() as int;
    let t = seq_sum(s) as int;
    let q = square_sum(s) as int;
    lemma_deviation_expansion(s, n, t);
    assert(n * n * q - 2 * n * t * t + n * t * t == n * (n * q - t * t)) by (nonlinear_arith);
    lemma_deviation_nonneg(s, n, t);
    assert(n * (n * q - t * t) >= 0 && n > 0 ==> n * q - t * t >= 0) by (nonlinear_arith);
}

proof fn lemma_deviation_nonneg(s: Seq<u64>, n: int, total: int)
    ensures
        scaled_deviation_sum(s, n, total) >= 0,
    decreases s.len(),
{
    if s.len() > 0 {
        lemma_deviation_nonneg(s.drop_last(), n, total);
        let d = n * s.last() - total;
        assert(d * d >= 0) by (nonlinear_arith);
    }
}

/// `n * n` times the population variance of the latencies (see
/// `scaled_variance`), or `None` where `n` times the sum of squares does not
/// fit in a `u128`.
pub fn variance_scaled(v: &Vec<u64>) -> (r: Option<u128>)
    ensures
        r == if (v.len() as nat) * square_sum(v@) <= u128::MAX {
            Some(scaled_variance(v@) as u128)
        } else {
            None::<u128>
        },
{
    let n = v.len();
    let mut q: u128 = 0;
    let mut i: usize = 0;
    while i < n
        invariant
            i <= n,
            n == v.len(),
            q == square_sum(v@.take(i as int)),
        decreases n - i,
    {
        proof {
            lemma_take_last(v@, i as int);
            lemma_square_sum_prefix(v@, i as int + 1);
            if n > 0 {
                assert((n as nat) * square_sum(v@) >= square_sum(v@)) by (nonlinear_arith)
                    requires
                        n > 0,
                ;
            }
        }
        let x = v[i] as u128;
        assert((x as nat) * (x as nat) <= (u64::MAX as nat) * (u64::MAX as nat))
            by (nonlinear_arith)
            requires
                x <= u64::MAX,
        ;
        match q.checked_add(x * x) {
            Some(next) => {
                q = next;
            },
            None => {
                return None;
            },
        }
        i = i + 1;
    }
    assert(v@.take(n as int) =~= v@);
    if n == 0 {
        assert((v.len() as nat) * square_sum(v@) == 0) by (nonlinear_arith)
            requires
                v.len() == 0,
        ;
        assert(scaled_variance(v@) == 0);
        return Some(0);
    }
    let nq = match (n as u128).checked_mul(q) {
        Some(nq) => nq,
        None => {
            return None;
        },
    };
    let t = latency_total(v);
    proof {
        lemma_population_variance(v@);
    }
    Some(nq - t * t)
}

} // verus!
