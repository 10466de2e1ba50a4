//! Growth projection: stand metrics advanced through time under one of
//! three growth models.

use vstd::prelude::*;

use crate::error::ForestError;
use crate::fixed::{lemma_div_le, lemma_mul_le, MICRO};
use crate::inventory::{ForestInventory, PlotMetric};

verus! {

/// Largest supported annual rate: 2.0 per year, in micro-units.
pub const RATE_MICRO_MAX: u64 = 2_000_000;

/// Number of series terms beyond the constant one in the exponential.
pub const EXP_TERMS: u64 = 12;

/// The `k`-th term of the fixed-point exponential series at `x`:
/// `x^k / k!`, in micro-units, each step truncated.
pub open spec fn exp_term(x: int, k: nat) -> int
    decreases k,
{
    if k == 0 {
        MICRO as int
    } else {
        exp_term(x, (k - 1) as nat) * x / (k * (MICRO as int))
    }
}

/// The exponential series at `x` summed through the `k`-th term.
pub open spec fn exp_partial(x: int, k: nat) -> int
    decreases k,
{
    if k == 0 {
        MICRO as int
    } else {
        exp_partial(x, (k - 1) as nat) + exp_term(x, k)
    }
}

/// The fixed-point exponential of `x`: `e^x` in micro-units, as the
/// truncated series with `EXP_TERMS` terms.
pub open spec fn spec_exp_micro(x: int) -> int {
    exp_partial(x, EXP_TERMS as nat)
}

/// The per-year survival factor for a mortality rate: `e^(-m)` in
/// micro-units, computed as `MICRO^2 / e^m`.
pub open spec fn spec_survival(m: int) -> int {
    (MICRO as int) * (MICRO as int) / spec_exp_micro(m)
}

/// One year of growth by a micro-unit factor, saturating at the
/// largest representable value.
pub open spec fn spec_grow(v: int, f: int) -> int {
    let x = v * f / (MICRO as int);
    if x > u64::MAX as int {
        u64::MAX as int
    } else {
        x
    }
}

/// `t` years of growth by a fixed micro-unit factor.
pub open spec fn spec_grow_seq(v0: int, f: int, t: nat) -> int
    decreases t,
{
    if t == 0 {
        v0
    } else {
        spec_grow(spec_grow_seq(v0, f, (t - 1) as nat), f)
    }
}

/// The truncated value of `u128` arithmetic clamped into `u64`.
pub open spec fn spec_sat(x: int) -> int {
    if x > u64::MAX as int {
        u64::MAX as int
    } else {
        x
    }
}

/// The denominator of the logistic curve, in micro-units:
/// `1 + ((K - V0)/V0) * e`, kept as a difference of non-negative parts.
pub open spec fn logistic_den(v0: int, k: int, e: int) -> int {
    if k >= v0 {
        (MICRO as int) + (k - v0) * e / v0
    } else {
        (MICRO as int) - (v0 - k) * e / v0
    }
}

/// The logistic curve value at year `t`, in micro-units:
/// `K / (1 + ((K - V0)/V0) * e^(-r t))`, zero when the start or the
/// denominator is not positive, saturating at the largest representable
/// value.
pub open spec fn spec_logistic(v0: int, k: int, r: int, t: nat) -> int {
    if v0 <= 0 {
        0
    } else {
        let e = spec_grow_seq(MICRO as int, spec_survival(r), t);
        let den = logistic_den(v0, k, e);
        if den <= 0 {
            0
        } else {
            spec_sat(k * (MICRO as int) / den)
        }
    }
}

/// Growth model type, with micro-unit coefficients.
#[derive(Debug, Clone)]
pub enum GrowthModel {
    /// Simple exponential growth: values scale by `e^(rate * t)`,
    /// density decays by `e^(-mortality * t)`
    Exponential { annual_rate: u64, mortality_rate: u64 },
    /// Logistic growth toward a basal-area carrying capacity; volumes
    /// follow the same curve with proportionally scaled capacities
    Logistic { annual_rate: u64, carrying_capacity: u64, mortality_rate: u64 },
    /// Linear growth: basal area grows by the increment each year, the
    /// volumes by ten and fifty times it, density falls by the
    /// mortality rate each year
    Linear { annual_increment: u64, mortality_rate: u64 },
}

impl GrowthModel {
    /// Rates within the supported range.
    pub open spec fn valid(&self) -> bool {
        match self {
            GrowthModel::Exponential { annual_rate, mortality_rate } => annual_rate
                <= RATE_MICRO_MAX && mortality_rate <= RATE_MICRO_MAX,
            GrowthModel::Logistic { annual_rate, carrying_capacity, mortality_rate } => annual_rate
                <= RATE_MICRO_MAX && mortality_rate <= RATE_MICRO_MAX,
            GrowthModel::Linear { annual_increment, mortality_rate } => true,
        }
    }
}

/// A single year's growth projection, in micro-units.
#[derive(Debug, Clone)]
pub struct GrowthProjection {
    /// Years from now; zero is the current state
    pub year: u32,
    /// Trees per acre
    pub tpa: u64,
    /// Basal area per acre
    pub basal_area: u64,
    /// Cubic foot volume per acre
    pub volume_cuft: u64,
    /// Board foot volume per acre
    pub volume_bdft: u64,
}

/// What the projection at year `i` holds, given the four baselines.
pub open spec fn proj_ok(
    model: GrowthModel,
    tpa0: int,
    ba0: int,
    cu0: int,
    bd0: int,
    e: GrowthProjection,
    i: nat,
) -> bool {
    if i == 0 {
        &&& e.tpa == tpa0
        &&& e.basal_area == ba0
        &&& e.volume_cuft == cu0
        &&& e.volume_bdft == bd0
    } else {
        proj_step_ok(model, tpa0, ba0, cu0, bd0, e, i)
    }
}

/// What the projection at a year after the first holds.
pub open spec fn proj_step_ok(
    model: GrowthModel,
    tpa0: int,
    ba0: int,
    cu0: int,
    bd0: int,
    e: GrowthProjection,
    i: nat,
) -> bool {
    match model {
        GrowthModel::Exponential { annual_rate, mortality_rate } => {
            let f = spec_exp_micro(annual_rate as int);
            let s = spec_survival(mortality_rate as int);
            &&& e.tpa == spec_grow_seq(tpa0, s, i)
            &&& e.basal_area == spec_grow_seq(ba0, f, i)
            &&& e.volume_cuft == spec_grow_seq(cu0, f, i)
            &&& e.volume_bdft == spec_grow_seq(bd0, f, i)
        },
        GrowthModel::Logistic { annual_rate, carrying_capacity, mortality_rate } => {
            let s = spec_survival(mortality_rate as int);
            let k = carrying_capacity as int;
            let k_cu = if ba0 > 0 {
                spec_sat(cu0 * k / ba0)
            } else {
                cu0
            };
            let k_bd = if ba0 > 0 {
                spec_sat(bd0 * k / ba0)
            } else {
                bd0
            };
            &&& e.tpa == spec_grow_seq(tpa0, s, i)
            &&& e.basal_area == spec_logistic(ba0, k, annual_rate as int, i)
            &&& e.volume_cuft == spec_logistic(cu0, k_cu, annual_rate as int, i)
            &&& e.volume_bdft == spec_logistic(bd0, k_bd, annual_rate as int, i)
        },
        GrowthModel::Linear { annual_increment, mortality_rate } => {
            let inc = annual_increment as int;
            let m = mortality_rate as int;
            &&& e.tpa == (if tpa0 >= m * i {
                tpa0 - m * i
            } else {
                0
            })
            &&& e.basal_area == spec_sat(ba0 + inc * i)
            &&& e.volume_cuft == spec_sat(cu0 + inc * i * 10)
            &&& e.volume_bdft == spec_sat(bd0 + inc * i * 50)
        },
    }
}

/// The fixed-point exponential, in micro-units.
fn exp_micro(x: u64) -> (r: u64)
    requires
        x <= RATE_MICRO_MAX,
    ensures
        r == spec_exp_micro(x as int),
        MICRO + x <= r,
        r <= 52_000_000,
{
    let mut sum: u64 = MICRO;
    let mut term: u64 = MICRO;
    let mut k: u64 = 0;
    while k < EXP_TERMS
        invariant
            k <= EXP_TERMS,
            x <= RATE_MICRO_MAX,
            term == exp_term(x as int, k as nat),
            sum == exp_partial(x as int, k as nat),
            term <= 4_000_000,
            sum <= (k + 1) * 4_000_000,
            k >= 1 ==> sum >= MICRO + x,
        decreases EXP_TERMS - k,
    {
        let kn = k + 1;
        proof {
            assert((term as int) * (x as int) <= ((kn as int) * (MICRO as int)) * 4_000_000)
                by (nonlinear_arith)
                requires
                    term as int <= 4_000_000,
                    x as int <= 2_000_000,
                    kn as int >= 1,
                    MICRO == 1_000_000u64,
                    kn == 1 ==> term as int <= 1_000_000,
            ;
            lemma_div_le(
                (term as int) * (x as int),
                (kn as int) * (MICRO as int),
                4_000_000,
            );
        }
        let next: u64 = ((term as u128) * (x as u128) / ((kn as u128) * (MICRO as u128))) as u64;
        proof {
            if k == 0 {
                assert(exp_term(x as int, 1) == (MICRO as int) * (x as int) / (1 * (MICRO as int)));
                vstd::arithmetic::div_mod::lemma_div_multiples_vanish(x as int, MICRO as int);
                assert(next == x);
            }
        }
        term = next;
        sum = sum + term;
        k = kn;
    }
    sum
}

/// The per-year survival factor `e^(-m)` in micro-units.
fn survival_micro(m: u64) -> (r: u64)
    requires
        m <= RATE_MICRO_MAX,
    ensures
        r == spec_survival(m as int),
        r <= MICRO,
        m >= 1 ==> r < MICRO,
{
    let e = exp_micro(m);
    proof {
        lemma_div_le((MICRO as int) * (MICRO as int), e as int, MICRO as int);
        assert((MICRO as int) * (MICRO as int) <= (e as int) * (MICRO as int))
            by (nonlinear_arith)
            requires
                e >= MICRO,
        ;
        if m >= 1 {
            assert((MICRO as int) * (MICRO as int) / (e as int) < MICRO as int)
                by (nonlinear_arith)
                requires
                    e >= MICRO + 1,
            ;
        }
    }
    MICRO * MICRO / e
}

/// One year of growth by a micro-unit factor, saturating.
fn grow(v: u64, f: u64) -> (r: u64)
    ensures
        r == spec_grow(v as int, f as int),
{
    proof {
        lemma_mul_le(v as int, f as int, u64::MAX as int, u64::MAX as int);
    }
    let wide: u128 = (v as u128) * (f as u128) / (MICRO as u128);
    if wide > u64::MAX as u128 {
        u64::MAX
    } else {
        wide as u64
    }
}

/// Clamp 128-bit arithmetic into `u64`.
fn sat64(x: u128) -> (r: u64)
    ensures
        r == spec_sat(x as int),
{
    if x > u64::MAX as u128 {
        u64::MAX
    } else {
        x as u64
    }
}

/// Project stand growth over a number of years.
///
/// The result has one entry per year from zero through `years`; entry
/// zero is the inventory's current mean metrics, and every later entry
/// follows the chosen model's recurrence exactly as `proj_ok` states.
pub fn project_growth(inv: &ForestInventory, model: &GrowthModel, years: u32) -> (r: Result<
    Vec<GrowthProjection>,
    ForestError,
>)
    requires
        inv.bounded(),
        model.valid(),
        years < u32::MAX,
    ensures
        inv.plots@.len() == 0 <==> r is Err,
        r matches Err(e) ==> e is InsufficientData,
        r matches Ok(v) ==> {
            &&& v@.len() == years + 1
            &&& forall|i: int| 0 <= i < v@.len() ==> (#[trigger] v@[i]).year == i
            &&& forall|i: int|
                0 <= i < v@.len() ==> proj_ok(
                    *model,
                    inv.spec_mean(PlotMetric::TreesPerAcre),
                    inv.spec_mean(PlotMetric::BasalAreaPerAcre),
                    inv.spec_mean(PlotMetric::VolumeCuftPerAcre),
                    inv.spec_mean(PlotMetric::VolumeBdftPerAcre),
                    #[trigger] v@[i],
                    i as nat,
                )
        },
{
    if inv.num_plots() == 0 {
        return Err(
            ForestError::InsufficientData(
                String::from_str("No plots available for growth projection"),
            ),
        );
    }
    let tpa0 = inv.mean_tpa();
    let ba0 = inv.mean_basal_area();
    let cu0 = inv.mean_volume_cuft();
    let bd0 = inv.mean_volume_bdft();

    let mut out: Vec<GrowthProjection> = Vec::new();
    out.push(
        GrowthProjection {
            year: 0,
            tpa: tpa0,
            basal_area: ba0,
            volume_cuft: cu0,
            volume_bdft: bd0,
        },
    );

    let mut tpa = tpa0;
    let mut ba = ba0;
    let mut cu = cu0;
    let mut bd = bd0;
    let mut ert: u64 = MICRO;

    let mut year: u32 = 1;
    while year <= years
        invariant
            1 <= year,
            year <= years + 1,
            years < u32::MAX,
            inv.bounded(),
            model.valid(),
            tpa0 == inv.spec_mean(PlotMetric::TreesPerAcre),
            ba0 == inv.spec_mean(PlotMetric::BasalAreaPerAcre),
            cu0 == inv.spec_mean(PlotMetric::VolumeCuftPerAcre),
            bd0 == inv.spec_mean(PlotMetric::VolumeBdftPerAcre),
            out@.len() == year,
            forall|i: int| 0 <= i < out@.len() ==> (#[trigger] out@[i]).year == i,
            forall|i: int|
                0 <= i < out@.len() ==> proj_ok(
                    *model,
                    tpa0 as int,
                    ba0 as int,
                    cu0 as int,
                    bd0 as int,
                    #[trigger] out@[i],
                    i as nat,
                ),
            match model {
                GrowthModel::Exponential { annual_rate, mortality_rate } => {
                    &&& tpa == spec_grow_seq(
                        tpa0 as int,
                        spec_survival(*mortality_rate as int),
                        (year - 1) as nat,
                    )
                    &&& ba == spec_grow_seq(
                        ba0 as int,
                        spec_exp_micro(*annual_rate as int),
                        (year - 1) as nat,
                    )
                    &&& cu == spec_grow_seq(
                        cu0 as int,
                        spec_exp_micro(*annual_rate as int),
                        (year - 1) as nat,
                    )
                    &&& bd == spec_grow_seq(
                        bd0 as int,
                        spec_exp_micro(*annual_rate as int),
                        (year - 1) as nat,
                    )
                },
                GrowthModel::Logistic { annual_rate, carrying_capacity, mortality_rate } => {
                    &&& tpa == spec_grow_seq(
                        tpa0 as int,
                        spec_survival(*mortality_rate as int),
                        (year - 1) as nat,
                    )
                    &&& ert == spec_grow_seq(
                        MICRO as int,
                        spec_survival(*annual_rate as int),
                        (year - 1) as nat,
                    )
                    &&& ert <= MICRO
                },
                GrowthModel::Linear { annual_increment, mortality_rate } => true,
            },
        decreases years - year + 1,
    {
        let ghost t = (year - 1) as nat;
        match model {
            GrowthModel::Exponential { annual_rate, mortality_rate } => {
                let f = exp_micro(*annual_rate);
                let s = survival_micro(*mortality_rate);
                tpa = grow(tpa, s);
                ba = grow(ba, f);
                cu = grow(cu, f);
                bd = grow(bd, f);
                out.push(
                    GrowthProjection {
                        year,
                        tpa,
                        basal_area: ba,
                        volume_cuft: cu,
                        volume_bdft: bd,
                    },
                );
            },
            GrowthModel::Logistic { annual_rate, carrying_capacity, mortality_rate } => {
                let s = survival_micro(*mortality_rate);
                let sr = survival_micro(*annual_rate);
                tpa = grow(tpa, s);
                let ghost ert_old = ert as int;
                ert = grow(ert, sr);
                proof {
                    lemma_mul_le(ert_old, sr as int, MICRO as int, MICRO as int);
                    lemma_div_le(ert_old * (sr as int), MICRO as int, MICRO as int);
                }
                let k = *carrying_capacity;
                let ba_v = logistic_value(ba0, k, ert);
                let k_cu = scaled_capacity(cu0, k, ba0);
                let k_bd = scaled_capacity(bd0, k, ba0);
                let cu_v = logistic_value(cu0, k_cu, ert);
                let bd_v = logistic_value(bd0, k_bd, ert);
                ba = ba_v;
                cu = cu_v;
                bd = bd_v;
                out.push(
                    GrowthProjection {
                        year,
                        tpa,
                        basal_area: ba,
                        volume_cuft: cu,
                        volume_bdft: bd,
                    },
                );
            },
            GrowthModel::Linear { annual_increment, mortality_rate } => {
                let inc = *annual_increment as u128;
                let m = *mortality_rate as u128;
                let yw = year as u128;
                proof {
                    lemma_mul_le(m as int, yw as int, u64::MAX as int, u32::MAX as int);
                    lemma_mul_le(inc as int, yw as int, u64::MAX as int, u32::MAX as int);
                    lemma_mul_le(
                        (inc as int) * (yw as int),
                        50,
                        (u64::MAX as int) * (u32::MAX as int),
                        50,
                    );
                    lemma_mul_le(
                        (inc as int) * (yw as int),
                        10,
                        (u64::MAX as int) * (u32::MAX as int),
                        10,
                    );
                }
                let dead = m * yw;
                tpa = if (tpa0 as u128) >= dead {
                    (tpa0 as u128 - dead) as u64
                } else {
                    0
                };
                ba = sat64(ba0 as u128 + inc * yw);
                cu = sat64(cu0 as u128 + inc * yw * 10);
                bd = sat64(bd0 as u128 + inc * yw * 50);
                out.push(
                    GrowthProjection {
                        year,
                        tpa,
                        basal_area: ba,
                        volume_cuft: cu,
                        volume_bdft: bd,
                    },
                );
            },
        }
        year = year + 1;
    }
    Ok(out)
}

/// The carrying capacity for a volume: the baseline volume scaled by the
/// ratio of the basal-area capacity to the baseline basal area; the
/// ratio is one when the baseline basal area is zero.
fn scaled_capacity(v0: u64, k: u64, ba0: u64) -> (r: u64)
    ensures
        r == if ba0 > 0 {
            spec_sat(v0 * k / (ba0 as int))
        } else {
            v0 as int
        },
{
    if ba0 > 0 {
        proof {
            lemma_mul_le(v0 as int, k as int, u64::MAX as int, u64::MAX as int);
        }
        sat64((v0 as u128) * (k as u128) / (ba0 as u128))
    } else {
        v0
    }
}

/// The logistic curve value for one baseline, capacity and decay state.
fn logistic_value(v0: u64, k: u64, ert: u64) -> (r: u64)
    requires
        ert <= MICRO,
    ensures
        v0 == 0 ==> r == 0,
        v0 > 0 ==> {
            let den = logistic_den(v0 as int, k as int, ert as int);
            &&& (den <= 0 ==> r == 0)
            &&& (den > 0 ==> r == spec_sat(k * (MICRO as int) / den))
        },
{
    if v0 == 0 {
        return 0;
    }
    if k >= v0 {
        proof {
            lemma_mul_le(k as int - v0 as int, ert as int, u64::MAX as int, MICRO as int);
            lemma_mul_le(k as int, MICRO as int, u64::MAX as int, MICRO as int);
        }
        let scaled: u128 = ((k - v0) as u128) * (ert as u128) / (v0 as u128);
        let den: u128 = (MICRO as u128) + scaled;
        let num: u128 = (k as u128) * (MICRO as u128);
        sat64(num / den)
    } else {
        proof {
            lemma_mul_le(v0 as int - k as int, ert as int, u64::MAX as int, MICRO as int);
            lemma_mul_le(k as int, MICRO as int, u64::MAX as int, MICRO as int);
        }
        let d: u128 = ((v0 - k) as u128) * (ert as u128) / (v0 as u128);
        if d >= MICRO as u128 {
            return 0;
        }
        let den: u128 = (MICRO as u128) - d;
        let num: u128 = (k as u128) * (MICRO as u128);
        sat64(num / den)
    }
}

/// Every term of the exponential series is non-negative.
proof fn lemma_exp_term_nonneg(x: int, k: nat)
    requires
        x >= 0,
    ensures
        exp_term(x, k) >= 0,
    decreases k,
{
    if k > 0 {
        lemma_exp_term_nonneg(x, (k - 1) as nat);
        assert(exp_term(x, (k - 1) as nat) * x >= 0) by (nonlinear_arith)
            requires
                exp_term(x, (k - 1) as nat) >= 0,
                x >= 0,
        ;
        vstd::arithmetic::div_mod::lemma_div_pos_is_pos(
            exp_term(x, (k - 1) as nat) * x,
            (k as int) * (MICRO as int),
        );
    }
}

/// The exponential is at least its first two terms: `1 + x`.
pub proof fn lemma_exp_at_least(x: int)
    requires
        0 <= x <= u64::MAX,
    ensures
        spec_exp_micro(x) >= MICRO + x,
{
    vstd::arithmetic::div_mod::lemma_div_multiples_vanish(x, MICRO as int);
    assert(exp_term(x, 0) == MICRO as int);
    assert(exp_term(x, 1nat) == exp_term(x, 0) * x / (1nat * (MICRO as int)));
    assert((MICRO as int) * x / ((MICRO as int)) == x);
    assert(1nat * (MICRO as int) == MICRO as int) by (nonlinear_arith);
    assert(exp_term(x, 1) == x);
    assert(exp_partial(x, 1nat) == exp_partial(x, 0) + exp_term(x, 1));
    lemma_exp_partial_monotone(x, 1);
}

/// The partial sums grow with the number of terms.
proof fn lemma_exp_partial_monotone(x: int, k: nat)
    requires
        0 <= x,
        1 <= k <= EXP_TERMS,
    ensures
        exp_partial(x, EXP_TERMS as nat) >= exp_partial(x, k),
    decreases EXP_TERMS - k,
{
    if k < EXP_TERMS {
        lemma_exp_term_nonneg(x, (k + 1) as nat);
        lemma_exp_partial_monotone(x, (k + 1) as nat);
    }
}

/// Growth by a non-negative factor stays within the representable range.
pub proof fn lemma_grow_seq_range(v0: int, f: int, t: nat)
    requires
        0 <= v0 <= u64::MAX,
        0 <= f,
    ensures
        0 <= spec_grow_seq(v0, f, t) <= u64::MAX,
    decreases t,
{
    if t > 0 {
        lemma_grow_seq_range(v0, f, (t - 1) as nat);
        let v = spec_grow_seq(v0, f, (t - 1) as nat);
        assert(v * f >= 0) by (nonlinear_arith)
            requires
                v >= 0,
                f >= 0,
        ;
        vstd::arithmetic::div_mod::lemma_div_pos_is_pos(v * f, MICRO as int);
    }
}

/// With no mortality the survival factor is one, and the projected
/// density never moves from its baseline.
pub proof fn lemma_no_mortality_keeps_density(v0: u64, t: nat)
    ensures
        spec_survival(0) == MICRO,
        spec_grow_seq(v0 as int, MICRO as int, t) == v0,
    decreases t,
{
    lemma_exp_partial_zero(EXP_TERMS as nat);
    vstd::arithmetic::div_mod::lemma_div_multiples_vanish(MICRO as int, MICRO as int);
    if t > 0 {
        lemma_no_mortality_keeps_density(v0, (t - 1) as nat);
        vstd::arithmetic::div_mod::lemma_div_multiples_vanish(v0 as int, MICRO as int);
        assert((v0 as int) * (MICRO as int) == (MICRO as int) * (v0 as int)) by (nonlinear_arith);
    }
}

/// At zero every series term beyond the first vanishes.
proof fn lemma_exp_term_zero(k: nat)
    requires
        k >= 1,
    ensures
        exp_term(0, k) == 0,
    decreases k,
{
    if k > 1 {
        lemma_exp_term_zero((k - 1) as nat);
    }
}

/// At zero the series sums to exactly one.
proof fn lemma_exp_partial_zero(k: nat)
    ensures
        exp_partial(0, k) == MICRO,
    decreases k,
{
    if k > 0 {
        lemma_exp_partial_zero((k - 1) as nat);
        lemma_exp_term_zero(k);
    }
}

/// A positive mortality rate shrinks the survival factor below one, and
/// the projected density falls every year while it is still positive.
pub proof fn lemma_mortality_decreases_density(v0: u64, m: u64, t: nat)
    requires
        m >= 1,
    ensures
        spec_survival(m as int) < MICRO,
        spec_grow_seq(v0 as int, spec_survival(m as int), t + 1) <= spec_grow_seq(
            v0 as int,
            spec_survival(m as int),
            t,
        ),
        spec_grow_seq(v0 as int, spec_survival(m as int), t) > 0 ==> spec_grow_seq(
            v0 as int,
            spec_survival(m as int),
            t + 1,
        ) < spec_grow_seq(v0 as int, spec_survival(m as int), t),
{
    lemma_exp_at_least(m as int);
    let e = spec_exp_micro(m as int);
    assert((MICRO as int) * (MICRO as int) / e < MICRO as int) by (nonlinear_arith)
        requires
            e >= MICRO + 1,
            MICRO == 1_000_000u64,
    ;
    vstd::arithmetic::div_mod::lemma_div_pos_is_pos((MICRO as int) * (MICRO as int), e);
    let f = spec_survival(m as int);
    lemma_grow_seq_range(v0 as int, f, t);
    let v = spec_grow_seq(v0 as int, f, t);
    assert(v * f / (MICRO as int) <= v) by (nonlinear_arith)
        requires
            0 <= v,
            0 <= f < MICRO as int,
            MICRO == 1_000_000u64,
    ;
    if v > 0 {
        assert(v * f / (MICRO as int) < v) by (nonlinear_arith)
            requires
                0 < v,
                0 <= f < MICRO as int,
                MICRO == 1_000_000u64,
        ;
    }
}

/// The logistic curve never exceeds its carrying capacity when it
/// starts at or below it.
pub proof fn lemma_logistic_capped(v0: u64, k: u64, r: u64, t: nat)
    requires
        v0 <= k,
    ensures
        spec_logistic(v0 as int, k as int, r as int, t) <= k,
{
    if v0 == 0 {
    } else {
        lemma_exp_at_least(r as int);
        vstd::arithmetic::div_mod::lemma_div_pos_is_pos(
            (MICRO as int) * (MICRO as int),
            spec_exp_micro(r as int),
        );
        lemma_grow_seq_range(MICRO as int, spec_survival(r as int), t);
        let e = spec_grow_seq(MICRO as int, spec_survival(r as int), t);
        assert((k - v0) * e >= 0) by (nonlinear_arith)
            requires
                k >= v0,
                e >= 0,
        ;
        vstd::arithmetic::div_mod::lemma_div_pos_is_pos((k - v0) * e, v0 as int);
        let den = logistic_den(v0 as int, k as int, e);
        assert(den >= MICRO);
        vstd::arithmetic::div_mod::lemma_div_is_ordered_by_denominator(
            (k as int) * (MICRO as int),
            MICRO as int,
            den,
        );
        vstd::arithmetic::div_mod::lemma_div_multiples_vanish(k as int, MICRO as int);
        assert((k as int) * (MICRO as int) == (MICRO as int) * (k as int)) by (nonlinear_arith);
    }
}

/// A growth factor of at least one never shrinks a value: under the
/// exponential model the basal area and volumes are non-decreasing
/// year over year.
pub proof fn lemma_growth_nondecreasing(v0: u64, f: int, t: nat)
    requires
        f >= MICRO,
    ensures
        spec_grow_seq(v0 as int, f, t) <= spec_grow_seq(v0 as int, f, t + 1),
{
    lemma_grow_seq_range(v0 as int, f, t);
    let v = spec_grow_seq(v0 as int, f, t);
    vstd::arithmetic::div_mod::lemma_div_multiples_vanish(v, MICRO as int);
    assert(v * f >= v * (MICRO as int)) by (nonlinear_arith)
        requires
            f >= MICRO,
            v >= 0,
    ;
    vstd::arithmetic::div_mod::lemma_div_is_ordered(v * (MICRO as int), v * f, MICRO as int);
    assert(v * (MICRO as int) == (MICRO as int) * v) by (nonlinear_arith);
}

} // verus!
