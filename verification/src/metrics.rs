//! Stand-level metrics: per-acre totals and species composition.

use vstd::prelude::*;

use crate::fixed::{lemma_div_le, lemma_mul_le, MICRO};
use crate::inventory::{tree_count_upto, ForestInventory, PlotMetric};
use crate::plot::{Plot, PLOT_METRIC_MAX, PLOT_TREES_MAX};
use crate::species::Species;
use crate::tree::{Tree, DBH_MICRO_MAX, EF_MICRO_MAX, HEIGHT_MICRO_MAX, METRIC_TERM_MAX};

verus! {

/// Largest per-tree contribution to any of the five species accumulators:
/// the diameter-weighted term `dbh * expansion_factor`.
pub const SP_TERM_MAX: u64 = 200_000_000_000_000_000;

/// One of the five per-species accumulators.
#[derive(Debug, Clone, Copy, PartialEq, Eq, Structural)]
pub enum SpTerm {
    /// Summed expansion factors
    Tpa,
    /// Summed per-acre basal area
    BasalArea,
    /// Summed `dbh * expansion_factor`
    DbhWeighted,
    /// Summed heights of trees with a recorded height
    HeightSum,
    /// Number of trees with a recorded height
    HeightCount,
}

/// The chosen accumulator's term for one tree; dead, cut and missing
/// trees contribute nothing.
pub open spec fn sp_term(t: Tree, sel: SpTerm) -> int {
    if !(t.status is Live) {
        0
    } else {
        match sel {
            SpTerm::Tpa => t.expansion_factor as int,
            SpTerm::BasalArea => t.spec_basal_area_per_acre(),
            SpTerm::DbhWeighted => t.dbh * t.expansion_factor,
            SpTerm::HeightSum => match t.height {
                Some(h) => h as int,
                None => 0,
            },
            SpTerm::HeightCount => match t.height {
                Some(_) => 1,
                None => 0,
            },
        }
    }
}

/// Whether a tree belongs to the selection: every tree when `code` is
/// `None`, otherwise the trees of that species code.
pub open spec fn matches_code(t: Tree, code: Option<Seq<char>>) -> bool {
    match code {
        None => true,
        Some(c) => t.species.code@ == c,
    }
}

/// Sum of the chosen term over the selected trees among the first `n`.
pub open spec fn tsum(ts: Seq<Tree>, n: int, sel: SpTerm, code: Option<Seq<char>>) -> int
    decreases n,
{
    if n <= 0 {
        0
    } else {
        tsum(ts, n - 1, sel, code) + if matches_code(ts[n - 1], code) {
            sp_term(ts[n - 1], sel)
        } else {
            0
        }
    }
}

/// Sum of the chosen term over the selected trees of the first `p` plots.
pub open spec fn psum(plots: Seq<Plot>, p: int, sel: SpTerm, code: Option<Seq<char>>) -> int
    decreases p,
{
    if p <= 0 {
        0
    } else {
        psum(plots, p - 1, sel, code) + tsum(
            plots[p - 1].trees@,
            plots[p - 1].trees@.len() as int,
            sel,
            code,
        )
    }
}

/// Sum of the chosen term over one species' live trees of the whole
/// inventory.
pub open spec fn species_sum(plots: Seq<Plot>, sel: SpTerm, code: Seq<char>) -> int {
    psum(plots, plots.len() as int, sel, Some(code))
}

/// Sum of the chosen term over all live trees of the whole inventory.
pub open spec fn stand_sum(plots: Seq<Plot>, sel: SpTerm) -> int {
    psum(plots, plots.len() as int, sel, None)
}

/// Every term is non-negative, so every sum is.
pub proof fn lemma_tsum_nonneg(ts: Seq<Tree>, n: int, sel: SpTerm, code: Option<Seq<char>>)
    ensures
        0 <= tsum(ts, n, sel, code),
    decreases n,
{
    if n > 0 {
        lemma_tsum_nonneg(ts, n - 1, sel, code);
    }
}

/// Every term is non-negative, so every sum is.
pub proof fn lemma_psum_nonneg(plots: Seq<Plot>, p: int, sel: SpTerm, code: Option<Seq<char>>)
    ensures
        0 <= psum(plots, p, sel, code),
    decreases p,
{
    if p > 0 {
        lemma_psum_nonneg(plots, p - 1, sel, code);
        lemma_tsum_nonneg(plots[p - 1].trees@, plots[p - 1].trees@.len() as int, sel, code);
    }
}

/// A species' sum never exceeds the whole stand's sum.
pub proof fn lemma_tsum_code_le(ts: Seq<Tree>, n: int, sel: SpTerm, code: Seq<char>)
    ensures
        tsum(ts, n, sel, Some(code)) <= tsum(ts, n, sel, None),
    decreases n,
{
    if n > 0 {
        lemma_tsum_code_le(ts, n - 1, sel, code);
    }
}

/// A species' sum never exceeds the whole stand's sum.
pub proof fn lemma_psum_code_le(plots: Seq<Plot>, p: int, sel: SpTerm, code: Seq<char>)
    ensures
        psum(plots, p, sel, Some(code)) <= psum(plots, p, sel, None),
    decreases p,
{
    if p > 0 {
        lemma_psum_code_le(plots, p - 1, sel, code);
        lemma_tsum_code_le(plots[p - 1].trees@, plots[p - 1].trees@.len() as int, sel, code);
    }
}

/// The diameter-weighted sum is at most the largest diameter times the
/// expansion sum.
pub proof fn lemma_tsum_dbhw_le(ts: Seq<Tree>, n: int, code: Option<Seq<char>>)
    requires
        forall|i: int| 0 <= i < ts.len() ==> (#[trigger] ts[i]).bounded(),
        n <= ts.len(),
    ensures
        tsum(ts, n, SpTerm::DbhWeighted, code) <= DBH_MICRO_MAX * tsum(ts, n, SpTerm::Tpa, code),
    decreases n,
{
    if n > 0 {
        lemma_tsum_dbhw_le(ts, n - 1, code);
        let t = ts[n - 1];
        if matches_code(t, code) && t.status is Live {
            assert(t.dbh * t.expansion_factor <= DBH_MICRO_MAX * t.expansion_factor)
                by (nonlinear_arith)
                requires
                    t.dbh <= DBH_MICRO_MAX,
                    0 <= t.expansion_factor,
            ;
        }
        assert(DBH_MICRO_MAX * tsum(ts, n, SpTerm::Tpa, code) == DBH_MICRO_MAX * tsum(
            ts,
            n - 1,
            SpTerm::Tpa,
            code,
        ) + DBH_MICRO_MAX * (if matches_code(ts[n - 1], code) {
            sp_term(ts[n - 1], SpTerm::Tpa)
        } else {
            0
        })) by (nonlinear_arith)
            requires
                tsum(ts, n, SpTerm::Tpa, code) == tsum(ts, n - 1, SpTerm::Tpa, code) + (
                if matches_code(ts[n - 1], code) {
                    sp_term(ts[n - 1], SpTerm::Tpa)
                } else {
                    0
                }),
        ;
    }
}

/// The diameter-weighted sum is at most the largest diameter times the
/// expansion sum.
pub proof fn lemma_psum_dbhw_le(plots: Seq<Plot>, p: int, code: Option<Seq<char>>)
    requires
        forall|i: int| 0 <= i < plots.len() ==> (#[trigger] plots[i]).bounded(),
        p <= plots.len(),
    ensures
        psum(plots, p, SpTerm::DbhWeighted, code) <= DBH_MICRO_MAX * psum(
            plots,
            p,
            SpTerm::Tpa,
            code,
        ),
    decreases p,
{
    if p > 0 {
        lemma_psum_dbhw_le(plots, p - 1, code);
        let ts = plots[p - 1].trees@;
        lemma_tsum_dbhw_le(ts, ts.len() as int, code);
        assert(DBH_MICRO_MAX * psum(plots, p, SpTerm::Tpa, code) == DBH_MICRO_MAX * psum(
            plots,
            p - 1,
            SpTerm::Tpa,
            code,
        ) + DBH_MICRO_MAX * tsum(ts, ts.len() as int, SpTerm::Tpa, code)) by (nonlinear_arith)
            requires
                psum(plots, p, SpTerm::Tpa, code) == psum(plots, p - 1, SpTerm::Tpa, code) + tsum(
                    ts,
                    ts.len() as int,
                    SpTerm::Tpa,
                    code,
                ),
        ;
    }
}

/// At most `PLOT_TREES_MAX` trees on each of the first `p` plots.
pub proof fn lemma_tree_count_le(plots: Seq<Plot>, p: int)
    requires
        forall|i: int| 0 <= i < plots.len() ==> (#[trigger] plots[i]).bounded(),
        0 <= p <= plots.len(),
    ensures
        0 <= tree_count_upto(plots, p) <= p * (PLOT_TREES_MAX as int),
    decreases p,
{
    if p > 0 {
        lemma_tree_count_le(plots, p - 1);
    }
}

/// The five per-species accumulators over one selection of trees.
struct SelSums {
    /// Summed expansion factors
    tpa: u64,
    /// Summed per-acre basal area
    ba: u128,
    /// Summed `dbh * expansion_factor`
    dbhw: u128,
    /// Summed recorded heights
    h_sum: u64,
    /// Number of recorded heights
    h_count: u64,
}

/// Compute the five accumulators over the selected trees of the whole
/// inventory.
fn collect_sums(inv: &ForestInventory, code: Option<&String>) -> (r: SelSums)
    requires
        inv.bounded(),
    ensures
        ({
            let c = match code {
                Some(s) => Some(s@),
                None => None,
            };
            let np = inv.plots@.len() as int;
            &&& r.tpa == psum(inv.plots@, np, SpTerm::Tpa, c)
            &&& r.ba == psum(inv.plots@, np, SpTerm::BasalArea, c)
            &&& r.dbhw == psum(inv.plots@, np, SpTerm::DbhWeighted, c)
            &&& r.h_sum == psum(inv.plots@, np, SpTerm::HeightSum, c)
            &&& r.h_count == psum(inv.plots@, np, SpTerm::HeightCount, c)
            &&& r.tpa <= np * (PLOT_TREES_MAX as int) * (EF_MICRO_MAX as int)
            &&& r.ba <= np * (PLOT_TREES_MAX as int) * (METRIC_TERM_MAX as int)
            &&& r.h_sum <= np * (PLOT_TREES_MAX as int) * (HEIGHT_MICRO_MAX as int)
            &&& r.h_count <= np * (PLOT_TREES_MAX as int)
        }),
{
    let ghost c = match code {
        Some(s) => Some(s@),
        None => None,
    };
    let np = inv.plots.len();
    let mut tpa: u64 = 0;
    let mut ba: u128 = 0;
    let mut dbhw: u128 = 0;
    let mut h_sum: u64 = 0;
    let mut h_count: u64 = 0;
    let mut p: usize = 0;
    while p < np
        invariant
            p <= np,
            np == inv.plots@.len(),
            inv.bounded(),
            c == match code {
                Some(s) => Some(s@),
                None => None,
            },
            tpa == psum(inv.plots@, p as int, SpTerm::Tpa, c),
            ba == psum(inv.plots@, p as int, SpTerm::BasalArea, c),
            dbhw == psum(inv.plots@, p as int, SpTerm::DbhWeighted, c),
            h_sum == psum(inv.plots@, p as int, SpTerm::HeightSum, c),
            h_count == psum(inv.plots@, p as int, SpTerm::HeightCount, c),
            tree_count_upto(inv.plots@, p as int) <= (p as int) * (PLOT_TREES_MAX as int),
            tpa <= tree_count_upto(inv.plots@, p as int) * (EF_MICRO_MAX as int),
            ba <= tree_count_upto(inv.plots@, p as int) * (METRIC_TERM_MAX as int),
            dbhw <= tree_count_upto(inv.plots@, p as int) * (SP_TERM_MAX as int),
            h_sum <= tree_count_upto(inv.plots@, p as int) * (HEIGHT_MICRO_MAX as int),
            h_count <= tree_count_upto(inv.plots@, p as int),
            0 <= tree_count_upto(inv.plots@, p as int),
        decreases np - p,
    {
        let plot = &inv.plots[p];
        let nt = plot.trees.len();
        let ghost base = tree_count_upto(inv.plots@, p as int);
        proof {
            lemma_tree_count_le(inv.plots@, p as int);
        }
        let mut t: usize = 0;
        while t < nt
            invariant
                t <= nt,
                p < np,
                np == inv.plots@.len(),
                inv.bounded(),
                *plot == inv.plots@[p as int],
                nt == plot.trees@.len(),
                base == tree_count_upto(inv.plots@, p as int),
                0 <= base,
                base <= (p as int) * (PLOT_TREES_MAX as int),
                c == match code {
                    Some(s) => Some(s@),
                    None => None,
                },
                tpa == psum(inv.plots@, p as int, SpTerm::Tpa, c) + tsum(
                    plot.trees@,
                    t as int,
                    SpTerm::Tpa,
                    c,
                ),
                ba == psum(inv.plots@, p as int, SpTerm::BasalArea, c) + tsum(
                    plot.trees@,
                    t as int,
                    SpTerm::BasalArea,
                    c,
                ),
                dbhw == psum(inv.plots@, p as int, SpTerm::DbhWeighted, c) + tsum(
                    plot.trees@,
                    t as int,
                    SpTerm::DbhWeighted,
                    c,
                ),
                h_sum == psum(inv.plots@, p as int, SpTerm::HeightSum, c) + tsum(
                    plot.trees@,
                    t as int,
                    SpTerm::HeightSum,
                    c,
                ),
                h_count == psum(inv.plots@, p as int, SpTerm::HeightCount, c) + tsum(
                    plot.trees@,
                    t as int,
                    SpTerm::HeightCount,
                    c,
                ),
                tpa <= (base + t) * (EF_MICRO_MAX as int),
                ba <= (base + t) * (METRIC_TERM_MAX as int),
                dbhw <= (base + t) * (SP_TERM_MAX as int),
                h_sum <= (base + t) * (HEIGHT_MICRO_MAX as int),
                h_count <= base + t,
            decreases nt - t,
        {
            let tree = &plot.trees[t];
            let selected = match code {
                Some(s) => tree.species.code.eq(s),
                None => true,
            };
            proof {
                assert(selected == matches_code(inv.plots@[p as int].trees@[t as int], c));
            }
            if selected && tree.is_live() {
                tpa = tpa + tree.expansion_factor;
                ba = ba + tree.basal_area_per_acre() as u128;
                proof {
                    lemma_mul_le(
                        tree.dbh as int,
                        tree.expansion_factor as int,
                        DBH_MICRO_MAX as int,
                        EF_MICRO_MAX as int,
                    );
                }
                dbhw = dbhw + (tree.dbh as u128) * (tree.expansion_factor as u128);
                match tree.height {
                    Some(h) => {
                        h_sum = h_sum + h;
                        h_count = h_count + 1;
                    },
                    None => {},
                }
            }
            t += 1;
        }
        proof {
            assert(tree_count_upto(inv.plots@, p + 1 as int) == base + nt);
        }
        p += 1;
    }
    proof {
        lemma_tree_count_le(inv.plots@, np as int);
        lemma_mul_le(
            tree_count_upto(inv.plots@, np as int),
            EF_MICRO_MAX as int,
            (np as int) * (PLOT_TREES_MAX as int),
            EF_MICRO_MAX as int,
        );
        lemma_mul_le(
            tree_count_upto(inv.plots@, np as int),
            METRIC_TERM_MAX as int,
            (np as int) * (PLOT_TREES_MAX as int),
            METRIC_TERM_MAX as int,
        );
        lemma_mul_le(
            tree_count_upto(inv.plots@, np as int),
            HEIGHT_MICRO_MAX as int,
            (np as int) * (PLOT_TREES_MAX as int),
            HEIGHT_MICRO_MAX as int,
        );
    }
    SelSums { tpa, ba, dbhw, h_sum, h_count }
}

/// Whether a species occurs on a live tree of the inventory.
pub open spec fn live_species_occurs(plots: Seq<Plot>, sp: Species) -> bool {
    exists|p: int, t: int|
        0 <= p < plots.len() && 0 <= t < plots[p].trees@.len()
            && (#[trigger] plots[p].trees@[t]).status is Live
            && plots[p].trees@[t].species.code@ == sp.code@
            && plots[p].trees@[t].species.common_name@ == sp.common_name@
}

/// Whether some composition entry carries the given species code.
pub open spec fn comp_code_in(s: Seq<SpeciesComposition>, code: Seq<char>) -> bool {
    exists|i: int| 0 <= i < s.len() && (#[trigger] s[i]).species.code@ == code
}

/// Sorted by basal area, largest first.
pub open spec fn sorted_by_ba_desc(s: Seq<SpeciesComposition>) -> bool {
    forall|i: int, j: int|
        0 <= i < j < s.len() ==> (#[trigger] s[i]).basal_area >= (#[trigger] s[j]).basal_area
}

/// Per-species composition data, in micro-units.
#[derive(Debug, Clone)]
pub struct SpeciesComposition {
    /// The species
    pub species: Species,
    /// Trees per acre, averaged over all plots
    pub tpa: u64,
    /// Basal area per acre, averaged over all plots
    pub basal_area: u64,
    /// Share of the stand's trees per acre, in micro-percent
    pub percent_tpa: u64,
    /// Share of the stand's basal area, in micro-percent
    pub percent_basal_area: u64,
    /// Expansion-weighted mean diameter, in micro-inches
    pub mean_dbh: u64,
    /// Mean recorded height of this species' live trees, in micro-feet
    pub mean_height: Option<u64>,
}

/// Overall stand-level metrics, in micro-units.
#[derive(Debug, Clone)]
pub struct StandMetrics {
    /// Mean trees per acre
    pub total_tpa: u64,
    /// Mean basal area per acre
    pub total_basal_area: u64,
    /// Mean cubic foot volume per acre
    pub total_volume_cuft: u64,
    /// Mean board foot volume per acre
    pub total_volume_bdft: u64,
    /// Mean of the per-plot quadratic mean diameters, in micro-inches
    pub quadratic_mean_diameter: u64,
    /// Mean recorded height of all live trees, in micro-feet
    pub mean_height: Option<u64>,
    /// Number of species with live trees
    pub num_species: usize,
    /// Per-species composition, sorted by basal area descending
    pub species_composition: Vec<SpeciesComposition>,
}

/// What every entry of the species composition says: each field is the
/// corresponding per-species sum, averaged or scaled exactly as the
/// stand-level definitions require.
pub open spec fn comp_entry_ok(inv: ForestInventory, e: SpeciesComposition) -> bool {
    let np = inv.plots@.len() as int;
    let code = e.species.code@;
    let tpa_s = species_sum(inv.plots@, SpTerm::Tpa, code);
    let ba_s = species_sum(inv.plots@, SpTerm::BasalArea, code);
    let dbhw_s = species_sum(inv.plots@, SpTerm::DbhWeighted, code);
    let hs = species_sum(inv.plots@, SpTerm::HeightSum, code);
    let hc = species_sum(inv.plots@, SpTerm::HeightCount, code);
    let total_tpa = inv.spec_mean(PlotMetric::TreesPerAcre);
    let total_ba = inv.spec_mean(PlotMetric::BasalAreaPerAcre);
    &&& live_species_occurs(inv.plots@, e.species)
    &&& e.tpa == tpa_s / np
    &&& e.basal_area == ba_s / np
    &&& e.mean_dbh == (if tpa_s > 0 {
        dbhw_s / tpa_s
    } else {
        0
    })
    &&& e.percent_tpa == (if total_tpa > 0 {
        e.tpa * 100 * MICRO / total_tpa
    } else {
        0
    })
    &&& e.percent_basal_area == (if total_ba > 0 {
        e.basal_area * 100 * MICRO / total_ba
    } else {
        0
    })
    &&& (hc == 0 ==> e.mean_height is None)
    &&& (hc > 0 ==> (e.mean_height matches Some(mh) && mh == hs / hc))
}

/// Sum of the per-plot quadratic mean diameters over the first `p` plots.
pub open spec fn qmd_sum_upto(plots: Seq<Plot>, p: int) -> int
    decreases p,
{
    if p <= 0 {
        0
    } else {
        qmd_sum_upto(plots, p - 1) + plots[p - 1].spec_qmd()
    }
}

/// Mean of the per-plot quadratic mean diameters, zero without plots.
pub open spec fn spec_mean_qmd(inv: ForestInventory) -> int {
    if inv.plots@.len() == 0 {
        0
    } else {
        qmd_sum_upto(inv.plots@, inv.plots@.len() as int) / (inv.plots@.len() as int)
    }
}

/// The per-species trees-per-acre terms are the per-plot ones.
proof fn lemma_tsum_is_tpa(ts: Seq<Tree>, n: int)
    ensures
        tsum(ts, n, SpTerm::Tpa, None) == crate::plot::tpa_sum_upto(ts, n),
    decreases n,
{
    if n > 0 {
        lemma_tsum_is_tpa(ts, n - 1);
    }
}

/// Summing expansion factors over all live trees gives the summed
/// per-plot trees per acre.
proof fn lemma_stand_tpa(plots: Seq<Plot>, p: int)
    ensures
        psum(plots, p, SpTerm::Tpa, None) == crate::inventory::metric_sum_upto(
            plots,
            p,
            PlotMetric::TreesPerAcre,
        ),
    decreases p,
{
    if p > 0 {
        lemma_stand_tpa(plots, p - 1);
        lemma_tsum_is_tpa(plots[p - 1].trees@, plots[p - 1].trees@.len() as int);
    }
}

/// The per-species basal-area terms are the per-plot ones.
proof fn lemma_tsum_is_ba(ts: Seq<Tree>, n: int)
    ensures
        tsum(ts, n, SpTerm::BasalArea, None) == crate::plot::ba_sum_upto(ts, n),
    decreases n,
{
    if n > 0 {
        lemma_tsum_is_ba(ts, n - 1);
    }
}

/// Summing per-acre basal areas over all live trees gives the summed
/// per-plot basal areas per acre.
proof fn lemma_stand_ba(plots: Seq<Plot>, p: int)
    ensures
        psum(plots, p, SpTerm::BasalArea, None) == crate::inventory::metric_sum_upto(
            plots,
            p,
            PlotMetric::BasalAreaPerAcre,
        ),
    decreases p,
{
    if p > 0 {
        lemma_stand_ba(plots, p - 1);
        lemma_tsum_is_ba(plots[p - 1].trees@, plots[p - 1].trees@.len() as int);
    }
}

/// Whether some collected species carries the given code.
fn contains_code(list: &Vec<Species>, code: &String) -> (r: bool)
    ensures
        r == crate::inventory::code_in(list@, code@),
{
    let n = list.len();
    let mut k: usize = 0;
    while k < n
        invariant
            k <= n,
            n == list@.len(),
            forall|j: int| 0 <= j < k ==> (#[trigger] list@[j]).code@ != code@,
        decreases n - k,
    {
        if list[k].code.eq(code) {
            return true;
        }
        k += 1;
    }
    false
}

/// The species that occur on live trees, each once, in encounter order.
fn live_species(inv: &ForestInventory) -> (r: Vec<Species>)
    ensures
        forall|i: int, j: int|
            0 <= i < j < r@.len() ==> (#[trigger] r@[i]).code@ != (#[trigger] r@[j]).code@,
        forall|i: int| 0 <= i < r@.len() ==> live_species_occurs(inv.plots@, #[trigger] r@[i]),
        forall|p: int, t: int|
            0 <= p < inv.plots@.len() && 0 <= t < inv.plots@[p].trees@.len() && (
            #[trigger] inv.plots@[p].trees@[t]).status is Live ==> crate::inventory::code_in(
                r@,
                inv.plots@[p].trees@[t].species.code@,
            ),
{
    let np = inv.plots.len();
    let mut out: Vec<Species> = Vec::new();
    let mut p: usize = 0;
    while p < np
        invariant
            p <= np,
            np == inv.plots@.len(),
            forall|i: int, j: int|
                0 <= i < j < out@.len() ==> (#[trigger] out@[i]).code@ != (#[trigger] out@[j]).code@,
            forall|i: int| 0 <= i < out@.len() ==> live_species_occurs(inv.plots@, #[trigger] out@[i]),
            forall|q: int, t: int|
                0 <= q < p && 0 <= t < inv.plots@[q].trees@.len() && (
                #[trigger] inv.plots@[q].trees@[t]).status is Live ==> crate::inventory::code_in(
                    out@,
                    inv.plots@[q].trees@[t].species.code@,
                ),
        decreases np - p,
    {
        let nt = self_plot_len(&inv.plots[p]);
        let mut t: usize = 0;
        while t < nt
            invariant
                t <= nt,
                p < np,
                np == inv.plots@.len(),
                nt == inv.plots@[p as int].trees@.len(),
                forall|i: int, j: int|
                    0 <= i < j < out@.len() ==> (#[trigger] out@[i]).code@ != (
                    #[trigger] out@[j]).code@,
                forall|i: int|
                    0 <= i < out@.len() ==> live_species_occurs(inv.plots@, #[trigger] out@[i]),
                forall|q: int, u: int|
                    0 <= q < p && 0 <= u < inv.plots@[q].trees@.len() && (
                    #[trigger] inv.plots@[q].trees@[u]).status is Live
                        ==> crate::inventory::code_in(
                        out@,
                        inv.plots@[q].trees@[u].species.code@,
                    ),
                forall|u: int|
                    0 <= u < t && (#[trigger] inv.plots@[p as int].trees@[u]).status is Live
                        ==> crate::inventory::code_in(
                        out@,
                        inv.plots@[p as int].trees@[u].species.code@,
                    ),
            decreases nt - t,
        {
            let tree = &inv.plots[p].trees[t];
            if tree.is_live() {
                let ghost before = out@;
                if !contains_code(&out, &tree.species.code) {
                    out.push(tree.species.duplicate());
                    proof {
                        let new = out@;
                        assert(new[new.len() - 1].code@
                            == inv.plots@[p as int].trees@[t as int].species.code@);
                        assert(crate::inventory::code_in(
                            new,
                            inv.plots@[p as int].trees@[t as int].species.code@,
                        ));
                        assert forall|c: Seq<char>|
                            #[trigger] crate::inventory::code_in(before, c) implies
                            crate::inventory::code_in(new, c) by {
                            let i = choose|i: int|
                                0 <= i < before.len() && (#[trigger] before[i]).code@ == c;
                            assert(new[i] == before[i]);
                        }
                    }
                } else {
                    proof {
                        assert(crate::inventory::code_in(
                            out@,
                            inv.plots@[p as int].trees@[t as int].species.code@,
                        ));
                    }
                }
            }
            t += 1;
        }
        p += 1;
    }
    out
}

/// Length of a plot's tree list.
fn self_plot_len(p: &Plot) -> (n: usize)
    ensures
        n == p.trees@.len(),
{
    p.trees.len()
}

/// First position whose basal area is below the given one, in a list
/// sorted by basal area descending; inserting there keeps ties in
/// encounter order.
fn find_pos_ba(list: &Vec<SpeciesComposition>, ba: u64) -> (k: usize)
    ensures
        k <= list@.len(),
        forall|j: int| 0 <= j < k ==> (#[trigger] list@[j]).basal_area >= ba,
        k < list@.len() ==> list@[k as int].basal_area < ba,
{
    let n = list.len();
    let mut k: usize = 0;
    while k < n
        invariant
            k <= n,
            n == list@.len(),
            forall|j: int| 0 <= j < k ==> (#[trigger] list@[j]).basal_area >= ba,
        decreases n - k,
    {
        if list[k].basal_area < ba {
            return k;
        }
        k += 1;
    }
    k
}

/// Insert a composition entry, keeping the list sorted by basal area
/// descending; an entry goes after the entries of equal basal area.
fn insert_by_ba(list: &mut Vec<SpeciesComposition>, e: SpeciesComposition) -> (k: usize)
    requires
        sorted_by_ba_desc(old(list)@),
    ensures
        sorted_by_ba_desc(final(list)@),
        final(list)@.len() == old(list)@.len() + 1,
        k <= old(list)@.len(),
        final(list)@[k as int] == e,
        forall|i: int| 0 <= i < k ==> final(list)@[i] == old(list)@[i],
        forall|i: int| k < i < final(list)@.len() ==> final(list)@[i] == old(list)@[i - 1],
{
    let ghost orig = list@;
    let k = find_pos_ba(list, e.basal_area);
    proof {
        orig.insert_ensures(k as int, e);
    }
    list.insert(k, e);
    proof {
        let new = list@;
        assert forall|i: int, j: int| 0 <= i < j < new.len() implies (#[trigger] new[i]).basal_area
            >= (#[trigger] new[j]).basal_area by {
            if i < k {
                assert(new[i] == orig[i]);
            } else if i > k {
                assert(new[i] == orig[i - 1]);
            }
            if j < k {
                assert(new[j] == orig[j]);
            } else if j > k {
                assert(new[j] == orig[j - 1]);
            }
        }
    }
    k
}

/// One hundred percent, in micro-percent.
pub const PERCENT_SCALE: u64 = 100_000_000;

/// Compute stand-level metrics from a forest inventory.
///
/// With no plots every scalar is zero, the mean height absent and the
/// composition empty. Otherwise the four totals are the inventory's
/// per-acre means, the quadratic mean diameter is the mean of the
/// per-plot values, the mean height averages every recorded live-tree
/// height, and the composition holds one exact entry per species with
/// live trees, sorted by basal area descending.
pub fn compute_stand_metrics(inv: &ForestInventory) -> (m: StandMetrics)
    requires
        inv.bounded(),
    ensures
        m.total_tpa == inv.spec_mean(PlotMetric::TreesPerAcre),
        m.total_basal_area == inv.spec_mean(PlotMetric::BasalAreaPerAcre),
        m.total_volume_cuft == inv.spec_mean(PlotMetric::VolumeCuftPerAcre),
        m.total_volume_bdft == inv.spec_mean(PlotMetric::VolumeBdftPerAcre),
        m.quadratic_mean_diameter == spec_mean_qmd(*inv),
        stand_sum(inv.plots@, SpTerm::HeightCount) == 0 ==> m.mean_height is None,
        stand_sum(inv.plots@, SpTerm::HeightCount) > 0 ==> (m.mean_height matches Some(mh)
            && mh == stand_sum(inv.plots@, SpTerm::HeightSum) / stand_sum(
            inv.plots@,
            SpTerm::HeightCount,
        )),
        m.num_species == m.species_composition@.len(),
        sorted_by_ba_desc(m.species_composition@),
        forall|i: int|
            0 <= i < m.species_composition@.len() ==> comp_entry_ok(
                *inv,
                #[trigger] m.species_composition@[i],
            ),
        forall|i: int, j: int|
            0 <= i < j < m.species_composition@.len() ==> (
            #[trigger] m.species_composition@[i]).species.code@ != (
            #[trigger] m.species_composition@[j]).species.code@,
        forall|p: int, t: int|
            0 <= p < inv.plots@.len() && 0 <= t < inv.plots@[p].trees@.len() && (
            #[trigger] inv.plots@[p].trees@[t]).status is Live ==> comp_code_in(
                m.species_composition@,
                inv.plots@[p].trees@[t].species.code@,
            ),
{
    let np = inv.plots.len();
    if np == 0 {
        return StandMetrics {
            total_tpa: 0,
            total_basal_area: 0,
            total_volume_cuft: 0,
            total_volume_bdft: 0,
            quadratic_mean_diameter: 0,
            mean_height: None,
            num_species: 0,
            species_composition: Vec::new(),
        };
    }
    let total_tpa = inv.mean_tpa();
    let total_ba = inv.mean_basal_area();
    let total_vol_cuft = inv.mean_volume_cuft();
    let total_vol_bdft = inv.mean_volume_bdft();

    // Mean of the per-plot quadratic mean diameters.
    let mut qmd_sum: u128 = 0;
    let mut i: usize = 0;
    while i < np
        invariant
            i <= np,
            np == inv.plots@.len(),
            inv.bounded(),
            qmd_sum == qmd_sum_upto(inv.plots@, i as int),
            qmd_sum <= (i as int) * (u64::MAX as int),
        decreases np - i,
    {
        qmd_sum = qmd_sum + inv.plots[i].quadratic_mean_diameter() as u128;
        i += 1;
    }
    proof {
        lemma_div_le(qmd_sum as int, np as int, u64::MAX as int);
    }
    let qmd = (qmd_sum / (np as u128)) as u64;

    // Mean recorded height over all live trees.
    let stand = collect_sums(inv, None);
    let mean_height: Option<u64> = if stand.h_count > 0 {
        Some(stand.h_sum / stand.h_count)
    } else {
        None
    };

    // One composition entry per species with live trees.
    let codes = live_species(inv);
    let nc = codes.len();
    let mut comp: Vec<SpeciesComposition> = Vec::new();
    let mut k: usize = 0;
    while k < nc
        invariant
            k <= nc,
            nc == codes@.len(),
            np == inv.plots@.len(),
            np > 0,
            inv.bounded(),
            total_tpa == inv.spec_mean(PlotMetric::TreesPerAcre),
            total_ba == inv.spec_mean(PlotMetric::BasalAreaPerAcre),
            forall|i: int, j: int|
                0 <= i < j < codes@.len() ==> (#[trigger] codes@[i]).code@ != (
                #[trigger] codes@[j]).code@,
            forall|i: int|
                0 <= i < codes@.len() ==> live_species_occurs(inv.plots@, #[trigger] codes@[i]),
            sorted_by_ba_desc(comp@),
            forall|i: int| 0 <= i < comp@.len() ==> comp_entry_ok(*inv, #[trigger] comp@[i]),
            forall|i: int|
                0 <= i < comp@.len() ==> exists|j: int|
                    0 <= j < k && (#[trigger] comp@[i]).species.code@ == codes@[j].code@,
            forall|j: int| 0 <= j < k ==> comp_code_in(comp@, (#[trigger] codes@[j]).code@),
            forall|i: int, j: int|
                0 <= i < j < comp@.len() ==> (#[trigger] comp@[i]).species.code@ != (
                #[trigger] comp@[j]).species.code@,
        decreases nc - k,
    {
        let sums = collect_sums(inv, Some(&codes[k].code));
        let ghost code = codes@[k as int].code@;
        proof {
            lemma_psum_nonneg(inv.plots@, np as int, SpTerm::Tpa, Some(code));
            lemma_psum_nonneg(inv.plots@, np as int, SpTerm::BasalArea, Some(code));
            lemma_psum_nonneg(inv.plots@, np as int, SpTerm::DbhWeighted, Some(code));
            lemma_psum_nonneg(inv.plots@, np as int, SpTerm::HeightSum, Some(code));
            lemma_psum_nonneg(inv.plots@, np as int, SpTerm::HeightCount, Some(code));
            vstd::arithmetic::mul::lemma_mul_is_associative(
                np as int,
                PLOT_TREES_MAX as int,
                METRIC_TERM_MAX as int,
            );
            lemma_div_le(sums.ba as int, np as int, PLOT_METRIC_MAX as int);
        }
        let tpa_e: u64 = sums.tpa / (np as u64);
        let ba_e: u64 = (sums.ba / (np as u128)) as u64;
        let mean_dbh: u64 = if sums.tpa > 0 {
            proof {
                lemma_psum_dbhw_le(inv.plots@, np as int, Some(code));
                lemma_div_le(sums.dbhw as int, sums.tpa as int, DBH_MICRO_MAX as int);
            }
            (sums.dbhw / (sums.tpa as u128)) as u64
        } else {
            0
        };
        let percent_tpa: u64 = if total_tpa > 0 {
            proof {
                lemma_psum_code_le(inv.plots@, np as int, SpTerm::Tpa, code);
                lemma_stand_tpa(inv.plots@, np as int);
                vstd::arithmetic::div_mod::lemma_div_is_ordered(
                    sums.tpa as int,
                    crate::inventory::metric_sum_upto(
                        inv.plots@,
                        np as int,
                        PlotMetric::TreesPerAcre,
                    ),
                    np as int,
                );
                lemma_mul_le(
                    tpa_e as int,
                    PERCENT_SCALE as int,
                    total_tpa as int,
                    PERCENT_SCALE as int,
                );
                lemma_div_le(
                    (tpa_e as int) * (PERCENT_SCALE as int),
                    total_tpa as int,
                    PERCENT_SCALE as int,
                );
            }
            ((tpa_e as u128) * (PERCENT_SCALE as u128) / (total_tpa as u128)) as u64
        } else {
            0
        };
        let percent_ba: u64 = if total_ba > 0 {
            proof {
                lemma_psum_code_le(inv.plots@, np as int, SpTerm::BasalArea, code);
                lemma_stand_ba(inv.plots@, np as int);
                vstd::arithmetic::div_mod::lemma_div_is_ordered(
                    sums.ba as int,
                    crate::inventory::metric_sum_upto(
                        inv.plots@,
                        np as int,
                        PlotMetric::BasalAreaPerAcre,
                    ),
                    np as int,
                );
                lemma_mul_le(
                    ba_e as int,
                    PERCENT_SCALE as int,
                    total_ba as int,
                    PERCENT_SCALE as int,
                );
                lemma_div_le(
                    (ba_e as int) * (PERCENT_SCALE as int),
                    total_ba as int,
                    PERCENT_SCALE as int,
                );
            }
            ((ba_e as u128) * (PERCENT_SCALE as u128) / (total_ba as u128)) as u64
        } else {
            0
        };
        let mean_h: Option<u64> = if sums.h_count > 0 {
            Some(sums.h_sum / sums.h_count)
        } else {
            None
        };
        let entry = SpeciesComposition {
            species: codes[k].duplicate(),
            tpa: tpa_e,
            basal_area: ba_e,
            percent_tpa,
            percent_basal_area: percent_ba,
            mean_dbh,
            mean_height: mean_h,
        };
        proof {
            assert(comp_entry_ok(*inv, entry));
        }
        let ghost before = comp@;
        let pos = insert_by_ba(&mut comp, entry);
        proof {
            let new = comp@;
            assert forall|i: int| 0 <= i < new.len() implies comp_entry_ok(
                *inv,
                #[trigger] new[i],
            ) by {
                if i < pos {
                    assert(new[i] == before[i]);
                } else if i > pos {
                    assert(new[i] == before[i - 1]);
                }
            }
            assert forall|i: int| 0 <= i < new.len() implies exists|j: int|
                0 <= j < k + 1 && (#[trigger] new[i]).species.code@ == codes@[j].code@ by {
                if i < pos {
                    assert(new[i] == before[i]);
                } else if i > pos {
                    assert(new[i] == before[i - 1]);
                } else {
                    assert(new[i].species.code@ == codes@[k as int].code@);
                }
            }
            assert forall|i: int, j: int| 0 <= i < j < new.len() implies (
            #[trigger] new[i]).species.code@ != (#[trigger] new[j]).species.code@ by {
                if i != pos && j != pos {
                    let mi: int = if i < pos { i } else { i - 1 };
                    let mj: int = if j < pos { j } else { j - 1 };
                    assert(new[i] == before[mi]);
                    assert(new[j] == before[mj]);
                } else {
                    let other: int = if i == pos { j } else { i };
                    let mo: int = if other < pos { other } else { other - 1 };
                    assert(new[other] == before[mo]);
                    let jj = choose|x: int|
                        0 <= x < k && (#[trigger] before[mo]).species.code@ == codes@[x].code@;
                    assert(codes@[jj].code@ != codes@[k as int].code@);
                    assert(new[pos as int].species.code@ == codes@[k as int].code@);
                }
            }
            assert forall|j: int| 0 <= j < k + 1 implies comp_code_in(
                new,
                (#[trigger] codes@[j]).code@,
            ) by {
                if j < k {
                    let i = choose|i: int|
                        0 <= i < before.len() && (#[trigger] before[i]).species.code@
                            == codes@[j].code@;
                    if i < pos {
                        assert(new[i] == before[i]);
                        assert(new[i].species.code@ == codes@[j].code@);
                    } else {
                        assert(new[i + 1] == before[i]);
                        assert(new[i + 1].species.code@ == codes@[j].code@);
                    }
                } else {
                    assert(new[pos as int].species.code@ == codes@[j].code@);
                }
            }
        }
        k += 1;
    }
    proof {
        assert forall|p: int, t: int|
            0 <= p < inv.plots@.len() && 0 <= t < inv.plots@[p].trees@.len() && (
            #[trigger] inv.plots@[p].trees@[t]).status is Live implies comp_code_in(
            comp@,
            inv.plots@[p].trees@[t].species.code@,
        ) by {
            let c = inv.plots@[p].trees@[t].species.code@;
            let j = choose|j: int| 0 <= j < codes@.len() && (#[trigger] codes@[j]).code@ == c;
            assert(comp_code_in(comp@, codes@[j].code@));
        }
    }
    let num_species = comp.len();
    StandMetrics {
        total_tpa,
        total_basal_area: total_ba,
        total_volume_cuft: total_vol_cuft,
        total_volume_bdft: total_vol_bdft,
        quadratic_mean_diameter: qmd,
        mean_height,
        num_species,
        species_composition: comp,
    }
}

/// An inventory without plots has zero for every mean and no recorded
/// heights: with the empty composition this is the all-zero result
/// `compute_stand_metrics` returns.
pub proof fn lemma_empty_inventory(inv: ForestInventory, m: PlotMetric)
    requires
        inv.plots@.len() == 0,
    ensures
        inv.spec_mean(m) == 0,
        spec_mean_qmd(inv) == 0,
        stand_sum(inv.plots@, SpTerm::HeightSum) == 0,
        stand_sum(inv.plots@, SpTerm::HeightCount) == 0,
{
}

/// The chosen metric's sum is zero when no tree is alive.
proof fn lemma_metric_sum_all_dead(plots: Seq<Plot>, p: int, m: PlotMetric)
    requires
        0 <= p <= plots.len(),
        forall|q: int, t: int|
            0 <= q < plots.len() && 0 <= t < plots[q].trees@.len() ==> !((
            #[trigger] plots[q].trees@[t]).status is Live),
    ensures
        crate::inventory::metric_sum_upto(plots, p, m) == 0,
        qmd_sum_upto(plots, p) == 0,
    decreases p,
{
    if p > 0 {
        lemma_metric_sum_all_dead(plots, p - 1, m);
        assert forall|t: int| 0 <= t < plots[p - 1].trees@.len() implies !((
        #[trigger] plots[p - 1].trees@[t]).status is Live) by {}
        crate::plot::lemma_plot_all_dead(plots[p - 1]);
    }
}

/// An inventory whose trees are all dead, cut or missing has zero for
/// every per-acre mean and for the mean quadratic diameter; its live
/// species composition is empty.
pub proof fn lemma_all_dead_inventory(inv: ForestInventory, m: PlotMetric)
    requires
        forall|q: int, t: int|
            0 <= q < inv.plots@.len() && 0 <= t < inv.plots@[q].trees@.len() ==> !((
            #[trigger] inv.plots@[q].trees@[t]).status is Live),
    ensures
        inv.spec_mean(m) == 0,
        spec_mean_qmd(inv) == 0,
        forall|sp: Species| !live_species_occurs(inv.plots@, sp),
{
    let np = inv.plots@.len() as int;
    lemma_metric_sum_all_dead(inv.plots@, np, m);
    if np > 0 {
        assert(0int / np == 0) by (nonlinear_arith)
            requires
                np > 0,
        ;
    }
}

/// The chosen term of one tree, counted once for each listed entry
/// whose species code it carries.
pub open spec fn hits(t: Tree, s: Seq<SpeciesComposition>, k: int, sel: SpTerm) -> int
    decreases k,
{
    if k <= 0 {
        0
    } else {
        hits(t, s, k - 1, sel) + if t.species.code@ == s[k - 1].species.code@ {
            sp_term(t, sel)
        } else {
            0
        }
    }
}

/// Sum over the first `k` entries of one tree-level species sum.
pub open spec fn cs_tsum(
    ts: Seq<Tree>,
    n: int,
    s: Seq<SpeciesComposition>,
    k: int,
    sel: SpTerm,
) -> int
    decreases k,
{
    if k <= 0 {
        0
    } else {
        cs_tsum(ts, n, s, k - 1, sel) + tsum(ts, n, sel, Some(s[k - 1].species.code@))
    }
}

/// Sum over the first `k` entries of one plot-level species sum.
pub open spec fn cs_psum(
    plots: Seq<Plot>,
    p: int,
    s: Seq<SpeciesComposition>,
    k: int,
    sel: SpTerm,
) -> int
    decreases k,
{
    if k <= 0 {
        0
    } else {
        cs_psum(plots, p, s, k - 1, sel) + psum(plots, p, sel, Some(s[k - 1].species.code@))
    }
}

/// With distinct codes, a tree is counted at most once: exactly once
/// when its code is listed, never otherwise.
proof fn lemma_hits_value(t: Tree, s: Seq<SpeciesComposition>, k: int, sel: SpTerm)
    requires
        0 <= k <= s.len(),
        forall|i: int, j: int|
            0 <= i < j < s.len() ==> (#[trigger] s[i]).species.code@ != (
            #[trigger] s[j]).species.code@,
    ensures
        hits(t, s, k, sel) == if exists|i: int|
            0 <= i < k && t.species.code@ == (#[trigger] s[i]).species.code@ {
            sp_term(t, sel)
        } else {
            0
        },
    decreases k,
{
    if k > 0 {
        lemma_hits_value(t, s, k - 1, sel);
        if t.species.code@ == s[k - 1].species.code@ {
            assert(!(exists|i: int|
                0 <= i < k - 1 && t.species.code@ == (#[trigger] s[i]).species.code@));
        } else {
            if exists|i: int| 0 <= i < k - 1 && t.species.code@ == (#[trigger] s[i]).species.code@ {
                let i = choose|i: int|
                    0 <= i < k - 1 && t.species.code@ == (#[trigger] s[i]).species.code@;
                assert(0 <= i < k && t.species.code@ == s[i].species.code@);
            }
        }
    }
}

/// Adding one tree adds its hits across every listed entry.
proof fn lemma_cs_tsum_step(
    ts: Seq<Tree>,
    n: int,
    s: Seq<SpeciesComposition>,
    k: int,
    sel: SpTerm,
)
    requires
        n >= 1,
    ensures
        cs_tsum(ts, n, s, k, sel) == cs_tsum(ts, n - 1, s, k, sel) + hits(ts[n - 1], s, k, sel),
    decreases k,
{
    if k > 0 {
        lemma_cs_tsum_step(ts, n - 1 + 1, s, k - 1, sel);
    }
}

/// Over trees whose live codes are all listed, the per-entry species
/// sums add up to the unfiltered sum.
proof fn lemma_cs_tsum_total(ts: Seq<Tree>, n: int, s: Seq<SpeciesComposition>, sel: SpTerm)
    requires
        0 <= n <= ts.len(),
        forall|i: int, j: int|
            0 <= i < j < s.len() ==> (#[trigger] s[i]).species.code@ != (
            #[trigger] s[j]).species.code@,
        forall|t: int|
            0 <= t < ts.len() && (#[trigger] ts[t]).status is Live ==> exists|i: int|
                0 <= i < s.len() && ts[t].species.code@ == (#[trigger] s[i]).species.code@,
    ensures
        cs_tsum(ts, n, s, s.len() as int, sel) == tsum(ts, n, sel, None),
    decreases n,
{
    if n <= 0 {
        lemma_cs_tsum_zero(ts, n, s, s.len() as int, sel);
    } else {
        lemma_cs_tsum_total(ts, n - 1, s, sel);
        lemma_cs_tsum_step(ts, n, s, s.len() as int, sel);
        lemma_hits_value(ts[n - 1], s, s.len() as int, sel);
    }
}

/// Species sums over no trees are zero.
proof fn lemma_cs_tsum_zero(
    ts: Seq<Tree>,
    n: int,
    s: Seq<SpeciesComposition>,
    k: int,
    sel: SpTerm,
)
    requires
        n <= 0,
    ensures
        cs_tsum(ts, n, s, k, sel) == 0,
    decreases k,
{
    if k > 0 {
        lemma_cs_tsum_zero(ts, n, s, k - 1, sel);
    }
}

/// Adding one plot adds its per-entry tree sums.
proof fn lemma_cs_psum_step(
    plots: Seq<Plot>,
    p: int,
    s: Seq<SpeciesComposition>,
    k: int,
    sel: SpTerm,
)
    requires
        p >= 1,
    ensures
        cs_psum(plots, p, s, k, sel) == cs_psum(plots, p - 1, s, k, sel) + cs_tsum(
            plots[p - 1].trees@,
            plots[p - 1].trees@.len() as int,
            s,
            k,
            sel,
        ),
    decreases k,
{
    if k > 0 {
        lemma_cs_psum_step(plots, p, s, k - 1, sel);
    }
}

/// Species sums over no plots are zero.
proof fn lemma_cs_psum_zero(
    plots: Seq<Plot>,
    p: int,
    s: Seq<SpeciesComposition>,
    k: int,
    sel: SpTerm,
)
    requires
        p <= 0,
    ensures
        cs_psum(plots, p, s, k, sel) == 0,
    decreases k,
{
    if k > 0 {
        lemma_cs_psum_zero(plots, p, s, k - 1, sel);
    }
}

/// The listed species partition the stand: their per-species sums add
/// up to the whole stand's sum.
proof fn lemma_partition(plots: Seq<Plot>, p: int, s: Seq<SpeciesComposition>, sel: SpTerm)
    requires
        0 <= p <= plots.len(),
        forall|i: int, j: int|
            0 <= i < j < s.len() ==> (#[trigger] s[i]).species.code@ != (
            #[trigger] s[j]).species.code@,
        forall|q: int, t: int|
            0 <= q < plots.len() && 0 <= t < plots[q].trees@.len() && (
            #[trigger] plots[q].trees@[t]).status is Live ==> exists|i: int|
                0 <= i < s.len() && plots[q].trees@[t].species.code@ == (
                #[trigger] s[i]).species.code@,
    ensures
        cs_psum(plots, p, s, s.len() as int, sel) == psum(plots, p, sel, None),
    decreases p,
{
    if p <= 0 {
        lemma_cs_psum_zero(plots, p, s, s.len() as int, sel);
    } else {
        lemma_partition(plots, p - 1, s, sel);
        lemma_cs_psum_step(plots, p, s, s.len() as int, sel);
        let ts = plots[p - 1].trees@;
        assert forall|t: int| 0 <= t < ts.len() && (#[trigger] ts[t]).status is Live implies exists|
            i: int,
        | 0 <= i < s.len() && ts[t].species.code@ == (#[trigger] s[i]).species.code@ by {
            assert(plots[p - 1].trees@[t].status is Live);
        }
        lemma_cs_tsum_total(ts, ts.len() as int, s, sel);
    }
}

/// Sum of the trees-per-acre fields over the first `k` entries.
pub open spec fn entry_tpa_sum(s: Seq<SpeciesComposition>, k: int) -> int
    decreases k,
{
    if k <= 0 {
        0
    } else {
        entry_tpa_sum(s, k - 1) + s[k - 1].tpa
    }
}

/// Sum of the trees-per-acre percentage fields over the first `k` entries.
pub open spec fn entry_pct_sum(s: Seq<SpeciesComposition>, k: int) -> int
    decreases k,
{
    if k <= 0 {
        0
    } else {
        entry_pct_sum(s, k - 1) + s[k - 1].percent_tpa
    }
}

/// The per-plot averaging loses less than one micro-unit per entry:
/// the averaged entries bracket the per-species sums.
proof fn lemma_entry_tpa_accounting(inv: ForestInventory, s: Seq<SpeciesComposition>, k: int)
    requires
        inv.plots@.len() >= 1,
        0 <= k <= s.len(),
        forall|i: int| 0 <= i < s.len() ==> comp_entry_ok(inv, #[trigger] s[i]),
    ensures
        0 <= entry_tpa_sum(s, k),
        (inv.plots@.len() as int) * entry_tpa_sum(s, k) <= cs_psum(
            inv.plots@,
            inv.plots@.len() as int,
            s,
            k,
            SpTerm::Tpa,
        ),
        cs_psum(inv.plots@, inv.plots@.len() as int, s, k, SpTerm::Tpa) <= (
        inv.plots@.len() as int) * entry_tpa_sum(s, k) + k * (inv.plots@.len() as int - 1),
    decreases k,
{
    let np = inv.plots@.len() as int;
    if k > 0 {
        lemma_entry_tpa_accounting(inv, s, k - 1);
        let c = species_sum(inv.plots@, SpTerm::Tpa, s[k - 1].species.code@);
        lemma_psum_nonneg(inv.plots@, np, SpTerm::Tpa, Some(s[k - 1].species.code@));
        vstd::arithmetic::div_mod::lemma_fundamental_div_mod(c, np);
        vstd::arithmetic::div_mod::lemma_mod_bound(c, np);
        vstd::arithmetic::div_mod::lemma_div_pos_is_pos(c, np);
        assert(s[k - 1].tpa == c / np);
        assert(np * entry_tpa_sum(s, k) == np * entry_tpa_sum(s, k - 1) + np * (c / np))
            by (nonlinear_arith)
            requires
                entry_tpa_sum(s, k) == entry_tpa_sum(s, k - 1) + c / np,
        ;
        assert(k * (np - 1) == (k - 1) * (np - 1) + (np - 1)) by (nonlinear_arith);
    }
}

/// The percentage scaling loses less than one micro-percent per entry:
/// the percentages bracket the scaled entry sums.
proof fn lemma_entry_pct_accounting(inv: ForestInventory, s: Seq<SpeciesComposition>, k: int)
    requires
        inv.plots@.len() >= 1,
        inv.spec_mean(PlotMetric::TreesPerAcre) > 0,
        0 <= k <= s.len(),
        forall|i: int| 0 <= i < s.len() ==> comp_entry_ok(inv, #[trigger] s[i]),
    ensures
        0 <= entry_pct_sum(s, k),
        inv.spec_mean(PlotMetric::TreesPerAcre) * entry_pct_sum(s, k) <= (PERCENT_SCALE as int)
            * entry_tpa_sum(s, k),
        (PERCENT_SCALE as int) * entry_tpa_sum(s, k) <= inv.spec_mean(PlotMetric::TreesPerAcre)
            * entry_pct_sum(s, k) + k * (inv.spec_mean(PlotMetric::TreesPerAcre) - 1),
    decreases k,
{
    let t = inv.spec_mean(PlotMetric::TreesPerAcre);
    let sc = PERCENT_SCALE as int;
    if k > 0 {
        lemma_entry_pct_accounting(inv, s, k - 1);
        let q = s[k - 1].tpa as int;
        let x = q * 100 * (MICRO as int);
        assert(x == q * sc) by (nonlinear_arith)
            requires
                sc == 100 * (MICRO as int),
                x == q * 100 * (MICRO as int),
        ;
        vstd::arithmetic::div_mod::lemma_fundamental_div_mod(x, t);
        vstd::arithmetic::div_mod::lemma_mod_bound(x, t);
        vstd::arithmetic::div_mod::lemma_div_pos_is_pos(x, t);
        assert(x >= 0) by (nonlinear_arith)
            requires
                q >= 0,
                sc >= 0,
                x == q * sc,
        ;
        assert(s[k - 1].percent_tpa == x / t);
        assert(t * entry_pct_sum(s, k) == t * entry_pct_sum(s, k - 1) + t * (x / t))
            by (nonlinear_arith)
            requires
                entry_pct_sum(s, k) == entry_pct_sum(s, k - 1) + x / t,
        ;
        assert(sc * entry_tpa_sum(s, k) == sc * entry_tpa_sum(s, k - 1) + sc * q)
            by (nonlinear_arith)
            requires
                entry_tpa_sum(s, k) == entry_tpa_sum(s, k - 1) + q,
        ;
        assert(k * (t - 1) == (k - 1) * (t - 1) + (t - 1)) by (nonlinear_arith);
    }
}

/// The species percentages account for the whole stand: over any
/// composition that `compute_stand_metrics` can return, the per-species
/// shares of trees per acre sum to one hundred percent, up to a tenth
/// of a percent lost to rounding. The bound needs the stand's mean
/// density to be at least a hundredth of a tree per acre per listed
/// species; below that the rounding slack can exceed the tolerance.
pub proof fn lemma_species_percent_total(inv: ForestInventory, s: Seq<SpeciesComposition>)
    requires
        inv.plots@.len() >= 1,
        1 <= s.len() <= 40_000,
        forall|i: int, j: int|
            0 <= i < j < s.len() ==> (#[trigger] s[i]).species.code@ != (
            #[trigger] s[j]).species.code@,
        forall|i: int| 0 <= i < s.len() ==> comp_entry_ok(inv, #[trigger] s[i]),
        forall|q: int, t: int|
            0 <= q < inv.plots@.len() && 0 <= t < inv.plots@[q].trees@.len() && (
            #[trigger] inv.plots@[q].trees@[t]).status is Live ==> comp_code_in(
                s,
                inv.plots@[q].trees@[t].species.code@,
            ),
        inv.spec_mean(PlotMetric::TreesPerAcre) >= 10_000 * s.len(),
    ensures
        100 * (MICRO as int) - 100_000 <= entry_pct_sum(s, s.len() as int),
        entry_pct_sum(s, s.len() as int) <= 100 * (MICRO as int),
{
    let np = inv.plots@.len() as int;
    let ln = s.len() as int;
    let t = inv.spec_mean(PlotMetric::TreesPerAcre);
    let sc = PERCENT_SCALE as int;
    let e = entry_tpa_sum(s, ln);
    let p = entry_pct_sum(s, ln);

    assert forall|q: int, u: int|
        0 <= q < inv.plots@.len() && 0 <= u < inv.plots@[q].trees@.len() && (
        #[trigger] inv.plots@[q].trees@[u]).status is Live implies exists|i: int|
        0 <= i < s.len() && inv.plots@[q].trees@[u].species.code@ == (
        #[trigger] s[i]).species.code@ by {
        let c = inv.plots@[q].trees@[u].species.code@;
        let i = choose|i: int| 0 <= i < s.len() && (#[trigger] s[i]).species.code@ == c;
        assert(0 <= i < s.len() && inv.plots@[q].trees@[u].species.code@ == s[i].species.code@);
    }
    lemma_partition(inv.plots@, np, s, SpTerm::Tpa);
    lemma_stand_tpa(inv.plots@, np);
    let c_total = psum(inv.plots@, np, SpTerm::Tpa, None);
    assert(cs_psum(inv.plots@, np, s, ln, SpTerm::Tpa) == c_total);
    lemma_psum_nonneg(inv.plots@, np, SpTerm::Tpa, None);
    vstd::arithmetic::div_mod::lemma_fundamental_div_mod(c_total, np);
    vstd::arithmetic::div_mod::lemma_mod_bound(c_total, np);
    assert(t == c_total / np);

    lemma_entry_tpa_accounting(inv, s, ln);
    assert(e >= t - ln) by (nonlinear_arith)
        requires
            np * e >= c_total - ln * (np - 1),
            c_total >= np * t,
            np >= 1,
            ln >= 0,
    ;
    assert(e <= t) by (nonlinear_arith)
        requires
            np * e <= c_total,
            c_total <= np * t + np - 1,
            np >= 1,
    ;

    lemma_entry_pct_accounting(inv, s, ln);
    assert(p <= sc) by (nonlinear_arith)
        requires
            t * p <= sc * e,
            e <= t,
            t > 0,
            sc >= 0,
    ;
    assert(p >= sc - 100_000) by (nonlinear_arith)
        requires
            sc * e <= t * p + ln * (t - 1),
            e >= t - ln,
            t >= 10_000 * ln,
            1 <= ln <= 40_000,
            t > 0,
            sc == 100_000_000,
    ;
    assert(100 * (MICRO as int) == sc) by (nonlinear_arith)
        requires
            MICRO == 1_000_000u64,
            sc == 100_000_000,
    ;
}

/// Sum of the basal-area fields over the first `k` entries.
pub open spec fn entry_ba_sum(s: Seq<SpeciesComposition>, k: int) -> int
    decreases k,
{
    if k <= 0 {
        0
    } else {
        entry_ba_sum(s, k - 1) + s[k - 1].basal_area
    }
}

/// Sum of the basal-area percentage fields over the first `k` entries.
pub open spec fn entry_ba_pct_sum(s: Seq<SpeciesComposition>, k: int) -> int
    decreases k,
{
    if k <= 0 {
        0
    } else {
        entry_ba_pct_sum(s, k - 1) + s[k - 1].percent_basal_area
    }
}

/// The per-plot averaging loses less than one micro-unit per entry:
/// the averaged entries bracket the per-species basal-area sums.
proof fn lemma_entry_ba_accounting(inv: ForestInventory, s: Seq<SpeciesComposition>, k: int)
    requires
        inv.plots@.len() >= 1,
        0 <= k <= s.len(),
        forall|i: int| 0 <= i < s.len() ==> comp_entry_ok(inv, #[trigger] s[i]),
    ensures
        0 <= entry_ba_sum(s, k),
        (inv.plots@.len() as int) * entry_ba_sum(s, k) <= cs_psum(
            inv.plots@,
            inv.plots@.len() as int,
            s,
            k,
            SpTerm::BasalArea,
        ),
        cs_psum(inv.plots@, inv.plots@.len() as int, s, k, SpTerm::BasalArea) <= (
        inv.plots@.len() as int) * entry_ba_sum(s, k) + k * (inv.plots@.len() as int - 1),
    decreases k,
{
    let np = inv.plots@.len() as int;
    if k > 0 {
        lemma_entry_ba_accounting(inv, s, k - 1);
        let c = species_sum(inv.plots@, SpTerm::BasalArea, s[k - 1].species.code@);
        lemma_psum_nonneg(inv.plots@, np, SpTerm::BasalArea, Some(s[k - 1].species.code@));
        vstd::arithmetic::div_mod::lemma_fundamental_div_mod(c, np);
        vstd::arithmetic::div_mod::lemma_mod_bound(c, np);
        vstd::arithmetic::div_mod::lemma_div_pos_is_pos(c, np);
        assert(s[k - 1].basal_area == c / np);
        assert(np * entry_ba_sum(s, k) == np * entry_ba_sum(s, k - 1) + np * (c / np))
            by (nonlinear_arith)
            requires
                entry_ba_sum(s, k) == entry_ba_sum(s, k - 1) + c / np,
        ;
        assert(k * (np - 1) == (k - 1) * (np - 1) + (np - 1)) by (nonlinear_arith);
    }
}

/// The percentage scaling loses less than one micro-percent per entry:
/// the basal-area percentages bracket the scaled entry sums.
proof fn lemma_entry_ba_pct_accounting(inv: ForestInventory, s: Seq<SpeciesComposition>, k: int)
    requires
        inv.plots@.len() >= 1,
        inv.spec_mean(PlotMetric::BasalAreaPerAcre) > 0,
        0 <= k <= s.len(),
        forall|i: int| 0 <= i < s.len() ==> comp_entry_ok(inv, #[trigger] s[i]),
    ensures
        0 <= entry_ba_pct_sum(s, k),
        inv.spec_mean(PlotMetric::BasalAreaPerAcre) * entry_ba_pct_sum(s, k) <= (
        PERCENT_SCALE as int) * entry_ba_sum(s, k),
        (PERCENT_SCALE as int) * entry_ba_sum(s, k) <= inv.spec_mean(
            PlotMetric::BasalAreaPerAcre,
        ) * entry_ba_pct_sum(s, k) + k * (inv.spec_mean(PlotMetric::BasalAreaPerAcre) - 1),
    decreases k,
{
    let t = inv.spec_mean(PlotMetric::BasalAreaPerAcre);
    let sc = PERCENT_SCALE as int;
    if k > 0 {
        lemma_entry_ba_pct_accounting(inv, s, k - 1);
        let q = s[k - 1].basal_area as int;
        let x = q * 100 * (MICRO as int);
        assert(x == q * sc) by (nonlinear_arith)
            requires
                sc == 100 * (MICRO as int),
                x == q * 100 * (MICRO as int),
        ;
        vstd::arithmetic::div_mod::lemma_fundamental_div_mod(x, t);
        vstd::arithmetic::div_mod::lemma_mod_bound(x, t);
        vstd::arithmetic::div_mod::lemma_div_pos_is_pos(x, t);
        assert(x >= 0) by (nonlinear_arith)
            requires
                q >= 0,
                sc >= 0,
                x == q * sc,
        ;
        assert(s[k - 1].percent_basal_area == x / t);
        assert(t * entry_ba_pct_sum(s, k) == t * entry_ba_pct_sum(s, k - 1) + t * (x / t))
            by (nonlinear_arith)
            requires
                entry_ba_pct_sum(s, k) == entry_ba_pct_sum(s, k - 1) + x / t,
        ;
        assert(sc * entry_ba_sum(s, k) == sc * entry_ba_sum(s, k - 1) + sc * q)
            by (nonlinear_arith)
            requires
                entry_ba_sum(s, k) == entry_ba_sum(s, k - 1) + q,
        ;
        assert(k * (t - 1) == (k - 1) * (t - 1) + (t - 1)) by (nonlinear_arith);
    }
}

/// The basal-area percentages account for the whole stand: over any
/// composition that `compute_stand_metrics` can return, the per-species
/// shares of basal area sum to one hundred percent, up to a tenth of a
/// percent lost to rounding. The bound needs the stand's mean basal
/// area to be at least a hundredth of a micro-unit-per-acre unit per
/// listed species; below that the rounding slack can exceed the
/// tolerance.
pub proof fn lemma_species_percent_ba_total(inv: ForestInventory, s: Seq<SpeciesComposition>)
    requires
        inv.plots@.len() >= 1,
        1 <= s.len() <= 40_000,
        forall|i: int, j: int|
            0 <= i < j < s.len() ==> (#[trigger] s[i]).species.code@ != (
            #[trigger] s[j]).species.code@,
        forall|i: int| 0 <= i < s.len() ==> comp_entry_ok(inv, #[trigger] s[i]),
        forall|q: int, t: int|
            0 <= q < inv.plots@.len() && 0 <= t < inv.plots@[q].trees@.len() && (
            #[trigger] inv.plots@[q].trees@[t]).status is Live ==> comp_code_in(
                s,
                inv.plots@[q].trees@[t].species.code@,
            ),
        inv.spec_mean(PlotMetric::BasalAreaPerAcre) >= 10_000 * s.len(),
    ensures
        100 * (MICRO as int) - 100_000 <= entry_ba_pct_sum(s, s.len() as int),
        entry_ba_pct_sum(s, s.len() as int) <= 100 * (MICRO as int),
{
    let np = inv.plots@.len() as int;
    let ln = s.len() as int;
    let t = inv.spec_mean(PlotMetric::BasalAreaPerAcre);
    let sc = PERCENT_SCALE as int;
    let e = entry_ba_sum(s, ln);
    let p = entry_ba_pct_sum(s, ln);

    assert forall|q: int, u: int|
        0 <= q < inv.plots@.len() && 0 <= u < inv.plots@[q].trees@.len() && (
        #[trigger] inv.plots@[q].trees@[u]).status is Live implies exists|i: int|
        0 <= i < s.len() && inv.plots@[q].trees@[u].species.code@ == (
        #[trigger] s[i]).species.code@ by {
        let c = inv.plots@[q].trees@[u].species.code@;
        let i = choose|i: int| 0 <= i < s.len() && (#[trigger] s[i]).species.code@ == c;
        assert(0 <= i < s.len() && inv.plots@[q].trees@[u].species.code@ == s[i].species.code@);
    }
    lemma_partition(inv.plots@, np, s, SpTerm::BasalArea);
    lemma_stand_ba(inv.plots@, np);
    let c_total = psum(inv.plots@, np, SpTerm::BasalArea, None);
    assert(cs_psum(inv.plots@, np, s, ln, SpTerm::BasalArea) == c_total);
    lemma_psum_nonneg(inv.plots@, np, SpTerm::BasalArea, None);
    vstd::arithmetic::div_mod::lemma_fundamental_div_mod(c_total, np);
    vstd::arithmetic::div_mod::lemma_mod_bound(c_total, np);
    assert(t == c_total / np);

    lemma_entry_ba_accounting(inv, s, ln);
    assert(e >= t - ln) by (nonlinear_arith)
        requires
            np * e >= c_total - ln * (np - 1),
            c_total >= np * t,
            np >= 1,
            ln >= 0,
    ;
    assert(e <= t) by (nonlinear_arith)
        requires
            np * e <= c_total,
            c_total <= np * t + np - 1,
            np >= 1,
    ;

    lemma_entry_ba_pct_accounting(inv, s, ln);
    assert(p <= sc) by (nonlinear_arith)
        requires
            t * p <= sc * e,
            e <= t,
            t > 0,
            sc >= 0,
    ;
    assert(p >= sc - 100_000) by (nonlinear_arith)
        requires
            sc * e <= t * p + ln * (t - 1),
            e >= t - ln,
            t >= 10_000 * ln,
            1 <= ln <= 40_000,
            t > 0,
            sc == 100_000_000,
    ;
    assert(100 * (MICRO as int) == sc) by (nonlinear_arith)
        requires
            MICRO == 1_000_000u64,
            sc == 100_000_000,
    ;
}

} // verus!
