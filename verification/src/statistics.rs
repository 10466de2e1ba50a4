//! Sampling statistics: Student's-t confidence intervals over the
//! per-plot metric values.
//!
//! The critical value of the t-distribution comes from the caller as a
//! micro-unit argument; everything from the per-plot values to the
//! interval bounds is computed and specified here.

use vstd::prelude::*;

use crate::error::ForestError;
use crate::fixed::{isqrt, lemma_div_le, lemma_mul_le, sqrt_floor, MICRO};
use crate::inventory::{ForestInventory, PlotMetric, INV_PLOTS_MAX};
use crate::plot::PLOT_METRIC_MAX;

verus! {

/// Largest supported t critical value: one million, in micro-units.
pub const T_MICRO_MAX: u64 = 1_000_000_000_000;

/// Sum of the first `k` values.
pub open spec fn vsum(s: Seq<u64>, k: int) -> int
    decreases k,
{
    if k <= 0 {
        0
    } else {
        vsum(s, k - 1) + s[k - 1]
    }
}

/// Absolute deviation.
pub open spec fn dev(x: int, mean: int) -> int {
    if x >= mean {
        x - mean
    } else {
        mean - x
    }
}

/// Sum over the first `k` values of the squared deviation from the
/// mean, each term rescaled from micro-squared to micro scale.
pub open spec fn devsq_sum(s: Seq<u64>, k: int, mean: int) -> int
    decreases k,
{
    if k <= 0 {
        0
    } else {
        devsq_sum(s, k - 1, mean) + dev(s[k - 1] as int, mean) * dev(s[k - 1] as int, mean) / (
        MICRO as int)
    }
}

/// The arithmetic mean of the values.
pub open spec fn spec_ci_mean(s: Seq<u64>) -> int {
    vsum(s, s.len() as int) / (s.len() as int)
}

/// The sample variance, in rescaled micro scale.
pub open spec fn spec_ci_var(s: Seq<u64>) -> int {
    devsq_sum(s, s.len() as int, spec_ci_mean(s)) / (s.len() as int - 1)
}

/// The standard error of the mean, in micro-units.
pub open spec fn spec_ci_se(s: Seq<u64>) -> int {
    sqrt_floor(((spec_ci_var(s) / (s.len() as int)) * (MICRO as int)) as nat) as int
}

/// The half-width of the interval: the critical value times the
/// standard error.
pub open spec fn spec_ci_margin(s: Seq<u64>, t: int) -> int {
    t * spec_ci_se(s) / (MICRO as int)
}

/// Confidence interval for a metric, in micro-units.
#[derive(Debug, Clone)]
pub struct ConfidenceInterval {
    /// Mean of the per-plot values
    pub mean: u64,
    /// Standard error of the mean
    pub std_error: u64,
    /// Lower bound of the interval; may be negative
    pub lower: i128,
    /// Upper bound of the interval
    pub upper: u128,
    /// The requested confidence level, in micro-units of the 0..1 scale
    pub confidence_level: u64,
    /// Number of observations
    pub sample_size: u64,
    /// The half-width as a share of the mean, in micro-percent; zero
    /// when the mean is zero
    pub sampling_error_percent: u128,
}

/// What a confidence interval says about its sample.
pub open spec fn ci_ok(s: Seq<u64>, confidence: int, t: int, ci: ConfidenceInterval) -> bool {
    &&& ci.mean == spec_ci_mean(s)
    &&& ci.std_error == spec_ci_se(s)
    &&& ci.lower == spec_ci_mean(s) - spec_ci_margin(s, t)
    &&& ci.upper == spec_ci_mean(s) + spec_ci_margin(s, t)
    &&& ci.confidence_level == confidence
    &&& ci.sample_size == s.len()
    &&& ci.sampling_error_percent == (if spec_ci_mean(s) > 0 {
        spec_ci_margin(s, t) * 100 * (MICRO as int) / spec_ci_mean(s)
    } else {
        0
    })
}

/// Complete sampling statistics for the inventory.
#[derive(Debug, Clone)]
pub struct SamplingStatistics {
    pub tpa: ConfidenceInterval,
    pub basal_area: ConfidenceInterval,
    pub volume_cuft: ConfidenceInterval,
    pub volume_bdft: ConfidenceInterval,
}

/// The chosen metric's per-plot values as the statistics see them.
pub open spec fn metric_vals(inv: ForestInventory, m: PlotMetric) -> Seq<u64> {
    Seq::new(
        inv.plots@.len(),
        |i: int| crate::inventory::plot_metric_value(inv.plots@[i], m) as u64,
    )
}

/// Compute a confidence interval from per-plot values, a confidence
/// level and the matching t critical value.
pub fn compute_ci(values: &Vec<u64>, confidence: u64, t_value: u64) -> (r: Result<
    ConfidenceInterval,
    ForestError,
>)
    requires
        values@.len() <= INV_PLOTS_MAX,
        forall|i: int| 0 <= i < values@.len() ==> #[trigger] values@[i] <= PLOT_METRIC_MAX,
        t_value <= T_MICRO_MAX,
    ensures
        values@.len() < 2 <==> r is Err,
        r matches Err(e) ==> e is InsufficientData,
        r matches Ok(ci) ==> ci_ok(values@, confidence as int, t_value as int, ci),
{
    let n = values.len();
    if n < 2 {
        return Err(ForestError::InsufficientData(String::from_str("Need at least 2 observations")));
    }
    let mut sum: u128 = 0;
    let mut i: usize = 0;
    while i < n
        invariant
            i <= n,
            n == values@.len(),
            forall|j: int| 0 <= j < values@.len() ==> #[trigger] values@[j] <= PLOT_METRIC_MAX,
            sum == vsum(values@, i as int),
            sum <= (i as int) * (PLOT_METRIC_MAX as int),
        decreases n - i,
    {
        sum = sum + values[i] as u128;
        i += 1;
    }
    proof {
        lemma_div_le(sum as int, n as int, PLOT_METRIC_MAX as int);
    }
    let mean: u64 = (sum / (n as u128)) as u64;

    proof {
        assert((PLOT_METRIC_MAX as int) * (PLOT_METRIC_MAX as int) / (MICRO as int)
            <= 100_000_000_000_000_000_000_000_000_000_000) by (nonlinear_arith)
            requires
                PLOT_METRIC_MAX == 10_000_000_000_000_000_000u64,
                MICRO == 1_000_000u64,
        ;
    }
    let mut dsum: u128 = 0;
    let mut i: usize = 0;
    while i < n
        invariant
            i <= n,
            n == values@.len(),
            n <= INV_PLOTS_MAX,
            mean <= PLOT_METRIC_MAX,
            (PLOT_METRIC_MAX as int) * (PLOT_METRIC_MAX as int) / (MICRO as int)
                <= 100_000_000_000_000_000_000_000_000_000_000,
            forall|j: int| 0 <= j < values@.len() ==> #[trigger] values@[j] <= PLOT_METRIC_MAX,
            dsum == devsq_sum(values@, i as int, mean as int),
            dsum <= (i as int) * ((PLOT_METRIC_MAX as int) * (PLOT_METRIC_MAX as int) / (
            MICRO as int)),
        decreases n - i,
    {
        let v = values[i];
        let d: u64 = if v >= mean {
            v - mean
        } else {
            mean - v
        };
        proof {
            assert((PLOT_METRIC_MAX as int) * (PLOT_METRIC_MAX as int) / (MICRO as int)
                <= 100_000_000_000_000_000_000_000_000_000_000) by (nonlinear_arith)
                requires
                    PLOT_METRIC_MAX == 10_000_000_000_000_000_000u64,
                    MICRO == 1_000_000u64,
            ;
            lemma_mul_le(d as int, d as int, PLOT_METRIC_MAX as int, PLOT_METRIC_MAX as int);
            assert((d as int) * (d as int) <= (MICRO as int) * ((PLOT_METRIC_MAX as int) * (
            PLOT_METRIC_MAX as int) / (MICRO as int))) by (nonlinear_arith)
                requires
                    (d as int) * (d as int) <= (PLOT_METRIC_MAX as int) * (PLOT_METRIC_MAX as int),
                    PLOT_METRIC_MAX == 10_000_000_000_000_000_000u64,
                    MICRO == 1_000_000u64,
            ;
            assert((PLOT_METRIC_MAX as int) * (PLOT_METRIC_MAX as int) / (MICRO as int) >= 0)
                by (nonlinear_arith)
                requires
                    PLOT_METRIC_MAX == 10_000_000_000_000_000_000u64,
                    MICRO == 1_000_000u64,
            ;
            lemma_div_le(
                (d as int) * (d as int),
                MICRO as int,
                (PLOT_METRIC_MAX as int) * (PLOT_METRIC_MAX as int) / (MICRO as int),
            );
            lemma_mul_le(
                i as int,
                (PLOT_METRIC_MAX as int) * (PLOT_METRIC_MAX as int) / (MICRO as int),
                INV_PLOTS_MAX as int,
                100_000_000_000_000_000_000_000_000_000_000,
            );
            let dx = (PLOT_METRIC_MAX as int) * (PLOT_METRIC_MAX as int) / (MICRO as int);
            assert((i + 1 as int) * dx == (i as int) * dx + dx) by (nonlinear_arith);
        }
        let term: u128 = (d as u128) * (d as u128) / (MICRO as u128);
        dsum = dsum + term;
        i += 1;
    }
    let ghost dterm_max = (PLOT_METRIC_MAX as int) * (PLOT_METRIC_MAX as int) / (MICRO as int);
    proof {
        assert(dterm_max >= 0) by (nonlinear_arith)
            requires
                dterm_max == (PLOT_METRIC_MAX as int) * (PLOT_METRIC_MAX as int) / (MICRO as int),
                PLOT_METRIC_MAX == 10_000_000_000_000_000_000u64,
                MICRO == 1_000_000u64,
        ;
        assert(dsum <= (n as int) * dterm_max);
        assert((n as int) * dterm_max <= (n - 1) * (2 * dterm_max)) by (nonlinear_arith)
            requires
                n >= 2,
                dterm_max >= 0,
        ;
        lemma_div_le(dsum as int, n as int - 1, 2 * dterm_max);
    }
    let variance: u128 = dsum / ((n - 1) as u128);
    proof {
        assert(variance <= (n as int) * (2 * dterm_max)) by (nonlinear_arith)
            requires
                n >= 2,
                dterm_max >= 0,
                variance <= 2 * dterm_max,
        ;
        lemma_div_le(variance as int, n as int, 2 * dterm_max);
        assert(((variance as int) / (n as int)) * (MICRO as int) <= (2 * dterm_max) * (
        MICRO as int)) by (nonlinear_arith)
            requires
                0 <= (variance as int) / (n as int) <= 2 * dterm_max,
        ;
        assert((2 * dterm_max) * (MICRO as int) <= u128::MAX) by (nonlinear_arith)
            requires
                dterm_max == (PLOT_METRIC_MAX as int) * (PLOT_METRIC_MAX as int) / (MICRO as int),
                PLOT_METRIC_MAX == 10_000_000_000_000_000_000u64,
                MICRO == 1_000_000u64,
        ;
    }
    let scaled: u128 = variance / (n as u128) * (MICRO as u128);
    let se128 = isqrt(scaled);
    let std_error: u64 = se128 as u64;

    proof {
        lemma_mul_le(t_value as int, std_error as int, T_MICRO_MAX as int, u64::MAX as int);
        lemma_div_le(
            (t_value as int) * (std_error as int),
            MICRO as int,
            (T_MICRO_MAX as int) * (u64::MAX as int) / (MICRO as int),
        );
    }
    let margin: u128 = (t_value as u128) * (std_error as u128) / (MICRO as u128);
    let lower: i128 = mean as i128 - margin as i128;
    let upper: u128 = mean as u128 + margin;
    let sampling_error_percent: u128 = if mean > 0 {
        proof {
            lemma_mul_le(
                (margin as int) * 100,
                MICRO as int,
                ((T_MICRO_MAX as int) * (u64::MAX as int) / (MICRO as int)) * 100,
                MICRO as int,
            );
        }
        margin * 100 * (MICRO as u128) / (mean as u128)
    } else {
        0
    };
    Ok(
        ConfidenceInterval {
            mean,
            std_error,
            lower,
            upper,
            confidence_level: confidence,
            sample_size: n as u64,
            sampling_error_percent,
        },
    )
}

impl SamplingStatistics {
    /// Compute sampling statistics from an inventory at a given
    /// confidence level, with the two-sided t critical value for
    /// `n - 1` degrees of freedom supplied by the caller.
    pub fn compute(inv: &ForestInventory, confidence: u64, t_value: u64) -> (r: Result<
        SamplingStatistics,
        ForestError,
    >)
        requires
            inv.bounded(),
            t_value <= T_MICRO_MAX,
        ensures
            inv.plots@.len() < 2 <==> r is Err,
            r matches Err(e) ==> e is InsufficientData,
            r matches Ok(s) ==> {
                &&& ci_ok(
                    metric_vals(*inv, PlotMetric::TreesPerAcre),
                    confidence as int,
                    t_value as int,
                    s.tpa,
                )
                &&& ci_ok(
                    metric_vals(*inv, PlotMetric::BasalAreaPerAcre),
                    confidence as int,
                    t_value as int,
                    s.basal_area,
                )
                &&& ci_ok(
                    metric_vals(*inv, PlotMetric::VolumeCuftPerAcre),
                    confidence as int,
                    t_value as int,
                    s.volume_cuft,
                )
                &&& ci_ok(
                    metric_vals(*inv, PlotMetric::VolumeBdftPerAcre),
                    confidence as int,
                    t_value as int,
                    s.volume_bdft,
                )
            },
    {
        let n = inv.num_plots();
        if n < 2 {
            return Err(
                ForestError::InsufficientData(
                    String::from_str("Need at least 2 plots for statistical analysis"),
                ),
            );
        }
        let tpa = Self::metric_ci(inv, PlotMetric::TreesPerAcre, confidence, t_value);
        let basal_area = Self::metric_ci(inv, PlotMetric::BasalAreaPerAcre, confidence, t_value);
        let volume_cuft = Self::metric_ci(inv, PlotMetric::VolumeCuftPerAcre, confidence, t_value);
        let volume_bdft = Self::metric_ci(inv, PlotMetric::VolumeBdftPerAcre, confidence, t_value);
        Ok(SamplingStatistics { tpa, basal_area, volume_cuft, volume_bdft })
    }

    /// The confidence interval of one metric.
    fn metric_ci(inv: &ForestInventory, m: PlotMetric, confidence: u64, t_value: u64) -> (ci:
        ConfidenceInterval)
        requires
            inv.bounded(),
            inv.plots@.len() >= 2,
            t_value <= T_MICRO_MAX,
        ensures
            ci_ok(metric_vals(*inv, m), confidence as int, t_value as int, ci),
    {
        let values = inv.metric_values(m);
        proof {
            assert(values@ =~= metric_vals(*inv, m));
        }
        match compute_ci(&values, confidence, t_value) {
            Ok(ci) => ci,
            Err(e) => {
                proof {
                    assert(false);
                }
                ConfidenceInterval {
                    mean: 0,
                    std_error: 0,
                    lower: 0,
                    upper: 0,
                    confidence_level: confidence,
                    sample_size: 0,
                    sampling_error_percent: 0,
                }
            },
        }
    }
}

/// Identical observations give a zero standard error and a collapsed
/// interval: the lower and upper bounds both equal the mean.
pub proof fn lemma_identical_samples(s: Seq<u64>, c: u64, t: int)
    requires
        s.len() >= 2,
        forall|i: int| 0 <= i < s.len() ==> #[trigger] s[i] == c,
        t >= 0,
    ensures
        spec_ci_mean(s) == c,
        spec_ci_se(s) == 0,
        spec_ci_margin(s, t) == 0,
        spec_ci_mean(s) - spec_ci_margin(s, t) == c,
        spec_ci_mean(s) + spec_ci_margin(s, t) == c,
{
    let n = s.len() as int;
    lemma_vsum_constant(s, n, c);
    vstd::arithmetic::div_mod::lemma_div_multiples_vanish(c as int, n);
    assert(vsum(s, n) == n * c);
    assert(spec_ci_mean(s) == c);
    lemma_devsq_zero(s, n, c as int);
    assert(spec_ci_var(s) == 0);
    assert(spec_ci_se(s) == 0);
    assert(t * 0 == 0) by (nonlinear_arith);
}

/// The sum of `k` copies of one value.
proof fn lemma_vsum_constant(s: Seq<u64>, k: int, c: u64)
    requires
        0 <= k <= s.len(),
        forall|i: int| 0 <= i < s.len() ==> #[trigger] s[i] == c,
    ensures
        vsum(s, k) == k * c,
    decreases k,
{
    if k > 0 {
        lemma_vsum_constant(s, k - 1, c);
        assert(k * c == (k - 1) * c + c) by (nonlinear_arith);
    } else {
        assert(k * c == 0) by (nonlinear_arith)
            requires
                k == 0,
        ;
    }
}

/// Deviations from the common value are zero.
proof fn lemma_devsq_zero(s: Seq<u64>, k: int, mean: int)
    requires
        0 <= k <= s.len(),
        forall|i: int| 0 <= i < s.len() ==> #[trigger] s[i] == mean,
    ensures
        devsq_sum(s, k, mean) == 0,
    decreases k,
{
    if k > 0 {
        lemma_devsq_zero(s, k - 1, mean);
    }
}

/// A larger critical value never narrows the interval, and strictly
/// widens it once the increase is a full micro-unit against a positive
/// standard error. Larger confidence levels give larger critical
/// values, so raising the confidence widens the interval.
pub proof fn lemma_wider_interval(s: Seq<u64>, t1: int, t2: int)
    requires
        0 <= t1 <= t2,
    ensures
        spec_ci_margin(s, t1) <= spec_ci_margin(s, t2),
        (t2 - t1) * spec_ci_se(s) >= MICRO ==> spec_ci_margin(s, t1) < spec_ci_margin(s, t2),
{
    let se = spec_ci_se(s);
    assert(se >= 0);
    assert(t1 * se <= t2 * se) by (nonlinear_arith)
        requires
            0 <= t1 <= t2,
            se >= 0,
    ;
    vstd::arithmetic::div_mod::lemma_div_is_ordered(t1 * se, t2 * se, MICRO as int);
    if (t2 - t1) * se >= MICRO {
        assert(t2 * se >= t1 * se + MICRO) by (nonlinear_arith)
            requires
                (t2 - t1) * se >= MICRO,
        ;
        vstd::arithmetic::div_mod::lemma_div_is_ordered(
            t1 * se + MICRO as int,
            t2 * se,
            MICRO as int,
        );
        vstd::arithmetic::div_mod::lemma_fundamental_div_mod(t1 * se, MICRO as int);
        vstd::arithmetic::div_mod::lemma_mod_bound(t1 * se, MICRO as int);
        assert((t1 * se + MICRO as int) / (MICRO as int) > t1 * se / (MICRO as int))
            by (nonlinear_arith)
            requires
                t1 * se == (MICRO as int) * (t1 * se / (MICRO as int)) + t1 * se % (MICRO as int),
                0 <= t1 * se % (MICRO as int) < MICRO as int,
                MICRO == 1_000_000u64,
        ;
    }
}

} // verus!
