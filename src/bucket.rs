use vstd::arithmetic::div_mod::{lemma_div_denominator, lemma_hoist_over_denominator};
use vstd::prelude::*;

verus! {

/// `10^k`.
pub open spec fn pow10(k: nat) -> nat
    decreases k,
{
    if k == 0 {
        1
    } else {
        10 * pow10((k - 1) as nat)
    }
}

/// `a / m`, rounded up.
pub open spec fn ceil_div(a: nat, m: nat) -> nat
    recommends
        m > 0,
{
    ((a + m - 1) as nat / m) as nat
}

/// The number of trailing base-10 places that bucketing `a` to `figures` figures rounds
/// away: `max(0, ceil(log10(a)) - figures)` (see `lemma_bucket_rounds_up`).
pub open spec fn significant_power(a: nat, figures: nat) -> nat
    decreases a,
{
    if a <= 1 || a <= pow10(figures) {
        0
    } else {
        1 + significant_power(((a + 9) / 10) as nat, figures)
    }
}

/// A magnitude `a` rounded up (away from zero) to `figures` significant base-10 figures.
///
/// A magnitude that already has at most `figures` digits is its own bucket; any other
/// magnitude is rounded up to a whole number of tens, and that number of tens is bucketed.
/// `lemma_bucket_rounds_up` shows that this is `ceil(a / 10^power) * 10^power` with
/// `power = max(0, ceil(log10(a)) - figures)`.
pub open spec fn bucket_magnitude(a: nat, figures: nat) -> nat
    decreases a,
{
    if a <= 1 || a <= pow10(figures) {
        a
    } else {
        10 * bucket_magnitude(((a + 9) / 10) as nat, figures)
    }
}

/// The bucket of `value`: its magnitude rounded away from zero to `figures` significant
/// figures, with the sign kept, and clamped to the range of `i64`. Zero is its own bucket.
pub open spec fn bucket_spec(value: int, figures: nat) -> int {
    if value == 0 {
        0
    } else if value > 0 {
        let b = bucket_magnitude(value as nat, figures) as int;
        if b > i64::MAX {
            i64::MAX as int
        } else {
            b
        }
    } else {
        let b = bucket_magnitude((-value) as nat, figures) as int;
        if b > -(i64::MIN as int) {
            i64::MIN as int
        } else {
            -b
        }
    }
}

proof fn lemma_pow10_positive(k: nat)
    ensures
        pow10(k) >= 1,
    decreases k,
{
    if k > 0 {
        lemma_pow10_positive((k - 1) as nat);
    }
}

proof fn lemma_bucket_magnitude_at_least(a: nat, figures: nat)
    ensures
        bucket_magnitude(a, figures) >= a,
    decreases a,
{
    if a > pow10(figures) {
        lemma_pow10_positive(figures);
        lemma_bucket_magnitude_at_least(((a + 9) / 10) as nat, figures);
    }
}

/// Rounding up to tens, then to a multiple of `m` tens, rounds up to a multiple of `10 m`.
proof fn lemma_ceil_div_tens(a: nat, m: nat)
    requires
        m >= 1,
    ensures
        ceil_div(ceil_div(a, 10), m) == ceil_div(a, 10 * m),
{
    let x = (a + 10 * m - 1) as int;
    lemma_hoist_over_denominator((a + 9) as int, m - 1, 10);
    assert((a + 9) as int + (m - 1) * 10 == x) by (nonlinear_arith)
        requires
            x == (a + 10 * m - 1) as int,
            m >= 1,
    ;
    lemma_div_denominator(x, 10, m as int);
}

/// Bucketing rounds `a` up to a multiple of `10^power`, where `power` is
/// `max(0, ceil(log10(a)) - figures)`: the least `power` with `a <= 10^(power + figures)`.
pub proof fn lemma_bucket_rounds_up(a: nat, figures: nat)
    requires
        a >= 1,
    ensures
        a <= pow10(significant_power(a, figures) + figures),
        significant_power(a, figures) > 0 ==> a > pow10(
            (significant_power(a, figures) + figures - 1) as nat,
        ),
        bucket_magnitude(a, figures) == ceil_div(a, pow10(significant_power(a, figures)))
            * pow10(significant_power(a, figures)),
    decreases a,
{
    lemma_pow10_positive(figures);
    if a <= 1 || a <= pow10(figures) {
        assert(pow10(0) == 1);
        assert(ceil_div(a, 1) == a);
    } else {
        let c = ((a + 9) / 10) as nat;
        lemma_bucket_rounds_up(c, figures);
        let q = significant_power(c, figures);
        let m = pow10(q);
        lemma_pow10_positive(q);
        assert(pow10(q + 1 + figures) == 10 * pow10(q + figures));
        assert(pow10(q + 1) == 10 * m);
        if q > 0 {
            assert(pow10((q + figures) as nat) == 10 * pow10((q + figures - 1) as nat));
        }
        assert(ceil_div(a, 10) == c);
        lemma_ceil_div_tens(a, m);
        let k = ceil_div(c, m);
        assert(10 * (k * m) == k * (10 * m)) by (nonlinear_arith);
    }
}

/// `10^figures`, or `u64::MAX` where that power does not fit.
fn figure_limit(figures: u32) -> (r: u64)
    ensures
        r as nat == pow10(figures as nat) || (r == u64::MAX && pow10(figures as nat) >= u64::MAX),
{
    let mut r: u64 = 1;
    let mut i: u32 = 0;
    let mut saturated: bool = false;
    while i < figures
        invariant
            i <= figures,
            !saturated ==> r as nat == pow10(i as nat),
            saturated ==> r == u64::MAX && pow10(i as nat) >= u64::MAX,
        decreases figures - i,
    {
        if saturated || r > u64::MAX / 10 {
            saturated = true;
            r = u64::MAX;
        } else {
            r = r * 10;
        }
        i = i + 1;
    }
    r
}

/// The largest bucket magnitude kept before clamping: `2^63`, the magnitude of `i64::MIN`.
const MAGNITUDE_CAP: u64 = 0x8000_0000_0000_0000;

/// Base-10 significant-figures bucketing of `value` onto a logarithmic grid.
pub fn bucket_10<const FIGURES: u32>(value: i64) -> (r: i64)
    ensures
        r as int == bucket_spec(value as int, FIGURES as nat),
{
    if value == 0 {
        return 0;
    }
    let a: u64 = if value > 0 {
        value as u64
    } else {
        (-(value as i128)) as u64
    };
    let limit = figure_limit(FIGURES);
    proof {
        lemma_pow10_positive(FIGURES as nat);
    }
    // Round up to whole tens until the figures fit.
    let mut q: u64 = a;
    let mut tens: u64 = 0;
    assert(pow10(0) == 1);
    while q > limit
        invariant
            limit as nat == pow10(FIGURES as nat) || (limit == u64::MAX && pow10(FIGURES as nat)
                >= u64::MAX),
            pow10(FIGURES as nat) >= 1,
            1 <= q <= a,
            tens + q <= a,
            bucket_magnitude(a as nat, FIGURES as nat) == bucket_magnitude(q as nat, FIGURES as nat)
                * pow10(tens as nat),
        decreases q,
    {
        let next: u64 = q / 10 + if q % 10 == 0 { 0u64 } else { 1u64 };
        assert(next == (q + 9) / 10);
        let ghost bq = bucket_magnitude(next as nat, FIGURES as nat);
        let ghost p = pow10(tens as nat);
        assert(bucket_magnitude(q as nat, FIGURES as nat) == 10 * bq);
        assert(pow10((tens + 1) as nat) == 10 * p);
        assert((10 * bq) * p == bq * (10 * p)) by (nonlinear_arith);
        q = next;
        tens = tens + 1;
    }
    // Scale the rounded figures back up, saturating at the cap.
    let mut m: u64 = q;
    let mut j: u64 = 0;
    assert(pow10(0) == 1);
    while j < tens
        invariant
            j <= tens,
            q as nat * pow10(j as nat) >= 1,
            m <= MAGNITUDE_CAP,
            m < MAGNITUDE_CAP ==> m as nat == q as nat * pow10(j as nat),
            m == MAGNITUDE_CAP ==> q as nat * pow10(j as nat) >= MAGNITUDE_CAP,
            bucket_magnitude(q as nat, FIGURES as nat) == q,
        decreases tens - j,
    {
        let ghost qp = q as nat * pow10(j as nat);
        assert(q as nat * pow10((j + 1) as nat) == 10 * qp) by (nonlinear_arith)
            requires
                pow10((j + 1) as nat) == 10 * pow10(j as nat),
                qp == q as nat * pow10(j as nat),
        ;
        if m > MAGNITUDE_CAP / 10 {
            m = MAGNITUDE_CAP;
        } else {
            m = m * 10;
        }
        j = j + 1;
    }
    proof {
        lemma_bucket_magnitude_at_least(a as nat, FIGURES as nat);
    }
    if value > 0 {
        if m > i64::MAX as u64 {
            i64::MAX
        } else {
            m as i64
        }
    } else {
        if m == MAGNITUDE_CAP {
            i64::MIN
        } else {
            -(m as i64)
        }
    }
}

/// Buckets `value` to two significant figures.
pub fn bucket_10_2_sigfigs(value: i64) -> (r: i64)
    ensures
        r as int == bucket_spec(value as int, 2),
{
    bucket_10::<2>(value)
}

} // verus!
