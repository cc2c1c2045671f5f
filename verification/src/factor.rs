//! The integer parts of the factor quantile backtest.

use vstd::prelude::*;
use vstd::arithmetic::div_mod::lemma_div_is_ordered;
use vstd::arithmetic::mul::{lemma_mul_inequality, lemma_mul_is_commutative};

verus! {

/// How many bars have a forward return: the common length of the closes and
/// the factors less `forward`; `None` where there are fewer than two
/// quantiles, no horizon, or no bar with a forward return.
pub open spec fn sample_count(closes_len: nat, factors_len: nat, quantiles: nat, forward: nat) -> Option<nat> {
    let n = if closes_len <= factors_len {
        closes_len
    } else {
        factors_len
    };
    if quantiles < 2 || forward == 0 || n <= forward {
        None
    } else {
        Some((n - forward) as nat)
    }
}

/// Law: with at least two quantiles and a horizon of at least one bar that
/// is shorter than both series, every bar but the last `forward` of the
/// shorter series has a forward return; in every other case there is no
/// sample.
pub proof fn lemma_sample_count_law(closes_len: nat, factors_len: nat, quantiles: nat, forward: nat)
    ensures
        quantiles >= 2 && forward >= 1 && forward < closes_len && forward < factors_len
            && closes_len <= factors_len ==> sample_count(closes_len, factors_len, quantiles, forward)
            == Some((closes_len - forward) as nat),
        quantiles >= 2 && forward >= 1 && forward < closes_len && forward < factors_len
            && factors_len <= closes_len ==> sample_count(closes_len, factors_len, quantiles, forward)
            == Some((factors_len - forward) as nat),
        quantiles < 2 || forward == 0 || forward >= closes_len || forward >= factors_len
            ==> sample_count(closes_len, factors_len, quantiles, forward) is None,
        sample_count(closes_len, factors_len, quantiles, forward) matches Some(m) ==> m >= 1 && m
            + forward <= closes_len && m + forward <= factors_len,
{
}

/// How many bars have a forward return (see `sample_count`).
pub fn factor_sample_count(closes_len: usize, factors_len: usize, quantiles: usize, forward: usize) -> (res:
    Option<usize>)
    ensures
        match sample_count(closes_len as nat, factors_len as nat, quantiles as nat, forward as nat) {
            Some(m) => res == Some(m as usize),
            None => res is None,
        },
{
    let n = if closes_len <= factors_len {
        closes_len
    } else {
        factors_len
    };
    if quantiles < 2 || forward == 0 || n <= forward {
        None
    } else {
        Some(n - forward)
    }
}

/// The place, in the sorted factor values, of the `q`-th quantile bound:
/// `len * q / quantiles`, but at most the last place.
pub open spec fn bound_index(len: nat, q: nat, quantiles: nat) -> nat {
    let idx = (len * q) / quantiles;
    let last = if len >= 1 {
        (len - 1) as nat
    } else {
        0nat
    };
    if idx <= last {
        idx
    } else {
        last
    }
}

/// Law: the place of a quantile bound is the floor of `len * q / quantiles`,
/// kept within the sorted values: its multiple of `quantiles` is at most
/// `len * q`, and unless it is the last place the next multiple exceeds it.
pub proof fn lemma_bound_index_floor(len: nat, q: nat, quantiles: nat)
    requires
        quantiles >= 1,
        len >= 1,
    ensures
        bound_index(len, q, quantiles) <= len - 1,
        bound_index(len, q, quantiles) * quantiles <= len * q,
        bound_index(len, q, quantiles) == len - 1 || len * q < (bound_index(len, q, quantiles) + 1)
            * quantiles,
{
    let d = (len * q) / quantiles;
    lemma_floor_bounds(len * q, quantiles);
    let b = bound_index(len, q, quantiles);
    if d > len - 1 {
        lemma_mul_inequality(b as int, d as int, quantiles as int);
    }
}

proof fn lemma_floor_bounds(x: nat, d: nat)
    by (nonlinear_arith)
    requires
        d >= 1,
    ensures
        (x / d) * d <= x,
        x < (x / d + 1) * d,
{
}

/// The places of the quantile bounds `1..quantiles` in the sorted factor
/// values.
pub fn quantile_bound_indices(len: usize, quantiles: usize) -> (res: Vec<usize>)
    requires
        quantiles >= 1,
        len * (quantiles - 1) <= usize::MAX,
    ensures
        res@.len() == quantiles - 1,
        forall|k: int| 0 <= k < res@.len() ==> #[trigger] res@[k] == bound_index(len as nat, (k + 1) as nat, quantiles as nat),
{
    let mut out: Vec<usize> = Vec::new();
    let last = if len >= 1 { len - 1 } else { 0 };
    let mut q: usize = 1;
    while q < quantiles
        invariant
            1 <= q <= quantiles,
            len * (quantiles - 1) <= usize::MAX,
            last == if len >= 1 { (len - 1) as nat } else { 0nat },
            out@.len() == q - 1,
            forall|k: int| 0 <= k < out@.len() ==> #[trigger] out@[k] == bound_index(len as nat, (k + 1) as nat, quantiles as nat),
        decreases quantiles - q,
    {
        proof {
            lemma_mul_inequality(q as int, (quantiles - 1) as int, len as int);
            lemma_mul_is_commutative(q as int, len as int);
            lemma_mul_is_commutative((quantiles - 1) as int, len as int);
        }
        let idx = (len * q) / quantiles;
        let b = if idx <= last { idx } else { last };
        out.push(b);
        q = q + 1;
    }
    out
}

/// Law: the quantile bounds sit at nondecreasing places, each within the
/// sorted values where there are any.
pub proof fn lemma_bound_indices_ordered(len: nat, quantiles: nat, a: nat, b: nat)
    requires
        quantiles >= 1,
        a <= b,
    ensures
        bound_index(len, a, quantiles) <= bound_index(len, b, quantiles),
        len >= 1 ==> bound_index(len, b, quantiles) < len,
{
    lemma_mul_inequality(a as int, b as int, len as int);
    lemma_mul_is_commutative(a as int, len as int);
    lemma_mul_is_commutative(b as int, len as int);
    lemma_div_is_ordered((len * a) as int, (len * b) as int, quantiles as int);
}

} // verus!
