//! Diameter distribution: live trees binned into fixed-width classes.

use vstd::prelude::*;

use crate::fixed::lemma_div_le;
use crate::inventory::ForestInventory;
use crate::plot::{Plot, PLOT_METRIC_MAX, PLOT_TREES_MAX};
use crate::tree::{Tree, DBH_MICRO_MAX, EF_MICRO_MAX, METRIC_TERM_MAX};

verus! {

/// One of the three per-class accumulators.
#[derive(Debug, Clone, Copy, PartialEq, Eq, Structural)]
pub enum ClassTerm {
    /// Summed expansion factors
    Tpa,
    /// Summed per-acre basal area
    BasalArea,
    /// Number of measured trees
    Count,
}

/// The chosen accumulator's term for one live tree with diameter in
/// `[lo, hi)`; other trees contribute nothing.
pub open spec fn class_term(t: Tree, sel: ClassTerm, lo: int, hi: int) -> int {
    if t.status is Live && lo <= t.dbh < hi {
        match sel {
            ClassTerm::Tpa => t.expansion_factor as int,
            ClassTerm::BasalArea => t.spec_basal_area_per_acre(),
            ClassTerm::Count => 1,
        }
    } else {
        0
    }
}

/// Sum of the chosen class term over the first `n` trees.
pub open spec fn ctsum(ts: Seq<Tree>, n: int, sel: ClassTerm, lo: int, hi: int) -> int
    decreases n,
{
    if n <= 0 {
        0
    } else {
        ctsum(ts, n - 1, sel, lo, hi) + class_term(ts[n - 1], sel, lo, hi)
    }
}

/// Sum of the chosen class term over the first `p` plots.
pub open spec fn cpsum(plots: Seq<Plot>, p: int, sel: ClassTerm, lo: int, hi: int) -> int
    decreases p,
{
    if p <= 0 {
        0
    } else {
        cpsum(plots, p - 1, sel, lo, hi) + ctsum(
            plots[p - 1].trees@,
            plots[p - 1].trees@.len() as int,
            sel,
            lo,
            hi,
        )
    }
}

/// Whether some class covers the given diameter.
pub open spec fn covered(s: Seq<DiameterClass>, d: int) -> bool {
    exists|i: int| 0 <= i < s.len() && (#[trigger] s[i]).lower <= d < s[i].upper
}

/// A live tree with diameter in `[lo, hi)` makes the class count positive.
proof fn lemma_ctsum_count_pos(ts: Seq<Tree>, n: int, t: int, lo: int, hi: int)
    requires
        0 <= t < n,
        ts[t].status is Live,
        lo <= ts[t].dbh < hi,
    ensures
        ctsum(ts, n, ClassTerm::Count, lo, hi) > 0,
    decreases n,
{
    lemma_ctsum_nonneg(ts, n - 1, ClassTerm::Count, lo, hi);
    if t < n - 1 {
        lemma_ctsum_count_pos(ts, n - 1, t, lo, hi);
    }
}

/// Class sums are non-negative.
proof fn lemma_ctsum_nonneg(ts: Seq<Tree>, n: int, sel: ClassTerm, lo: int, hi: int)
    ensures
        0 <= ctsum(ts, n, sel, lo, hi),
    decreases n,
{
    if n > 0 {
        lemma_ctsum_nonneg(ts, n - 1, sel, lo, hi);
    }
}

/// Class sums are non-negative.
proof fn lemma_cpsum_nonneg(plots: Seq<Plot>, p: int, sel: ClassTerm, lo: int, hi: int)
    ensures
        0 <= cpsum(plots, p, sel, lo, hi),
    decreases p,
{
    if p > 0 {
        lemma_cpsum_nonneg(plots, p - 1, sel, lo, hi);
        lemma_ctsum_nonneg(plots[p - 1].trees@, plots[p - 1].trees@.len() as int, sel, lo, hi);
    }
}

/// A live tree with diameter in `[lo, hi)` makes the class count positive.
proof fn lemma_cpsum_count_pos(plots: Seq<Plot>, np: int, p: int, t: int, lo: int, hi: int)
    requires
        0 <= p < np <= plots.len(),
        0 <= t < plots[p].trees@.len(),
        plots[p].trees@[t].status is Live,
        lo <= plots[p].trees@[t].dbh < hi,
    ensures
        cpsum(plots, np, ClassTerm::Count, lo, hi) > 0,
    decreases np,
{
    lemma_cpsum_nonneg(plots, np - 1, ClassTerm::Count, lo, hi);
    let ts = plots[np - 1].trees@;
    lemma_ctsum_nonneg(ts, ts.len() as int, ClassTerm::Count, lo, hi);
    if p < np - 1 {
        lemma_cpsum_count_pos(plots, np - 1, p, t, lo, hi);
    } else {
        lemma_ctsum_count_pos(ts, ts.len() as int, t, lo, hi);
    }
}

/// A single diameter class in the distribution, in micro-units.
#[derive(Debug, Clone)]
pub struct DiameterClass {
    /// Lower bound of the class (inclusive), micro-inches
    pub lower: u64,
    /// Upper bound of the class (exclusive), micro-inches
    pub upper: u64,
    /// Midpoint of the class, micro-inches
    pub midpoint: u64,
    /// Trees per acre in this class, averaged over all plots
    pub tpa: u64,
    /// Basal area per acre in this class, averaged over all plots
    pub basal_area: u64,
    /// Number of measured trees in this class
    pub tree_count: u64,
}

/// Diameter distribution for the stand.
#[derive(Debug, Clone)]
pub struct DiameterDistribution {
    /// Width of each diameter class, in micro-inches
    pub class_width: u64,
    /// The diameter classes
    pub classes: Vec<DiameterClass>,
}

/// What one emitted class says about the inventory.
pub open spec fn class_ok(inv: ForestInventory, w: int, c: DiameterClass) -> bool {
    let np = inv.plots@.len() as int;
    let lo = c.lower as int;
    let hi = c.upper as int;
    &&& hi == lo + w
    &&& c.midpoint == lo + w / 2
    &&& c.tree_count == cpsum(inv.plots@, np, ClassTerm::Count, lo, hi)
    &&& c.tree_count > 0
    &&& c.tpa == cpsum(inv.plots@, np, ClassTerm::Tpa, lo, hi) / np
    &&& c.basal_area == cpsum(inv.plots@, np, ClassTerm::BasalArea, lo, hi) / np
}

impl DiameterDistribution {
    /// Build a diameter distribution from the inventory.
    ///
    /// Classes are contiguous `class_width`-wide bins starting at the
    /// largest multiple of `class_width` at or below the smallest live
    /// diameter; empty bins are omitted. With no plots or no live trees
    /// the class list is empty.
    pub fn from_inventory(inv: &ForestInventory, class_width: u64) -> (r: DiameterDistribution)
        requires
            inv.bounded(),
            1 <= class_width <= DBH_MICRO_MAX,
        ensures
            r.class_width == class_width,
            forall|i: int|
                0 <= i < r.classes@.len() ==> class_ok(
                    *inv,
                    class_width as int,
                    #[trigger] r.classes@[i],
                ),
            forall|i: int, j: int|
                0 <= i < j < r.classes@.len() ==> (#[trigger] r.classes@[i]).upper <= (
                #[trigger] r.classes@[j]).lower,
            forall|p: int, t: int|
                0 <= p < inv.plots@.len() && 0 <= t < inv.plots@[p].trees@.len() && (
                #[trigger] inv.plots@[p].trees@[t]).status is Live ==> covered(
                    r.classes@,
                    inv.plots@[p].trees@[t].dbh as int,
                ),
    {
        let np = inv.plots.len();
        if np == 0 {
            return DiameterDistribution { class_width, classes: Vec::new() };
        }
        let bounds = min_max_live_dbh(inv);
        let (min_dbh, max_dbh) = match bounds {
            None => { return DiameterDistribution { class_width, classes: Vec::new() } },
            Some(b) => b,
        };
        proof {
            assert((min_dbh as int) / (class_width as int) * (class_width as int)
                <= min_dbh as int) by (nonlinear_arith)
                requires
                    class_width >= 1,
            ;
            assert(max_dbh < ((max_dbh as int) / (class_width as int) + 1) * (class_width as int)
                <= max_dbh + class_width) by (nonlinear_arith)
                requires
                    class_width >= 1,
            ;
        }
        let start: u64 = min_dbh / class_width * class_width;
        let end: u64 = (max_dbh / class_width + 1) * class_width;
        let mut classes: Vec<DiameterClass> = Vec::new();
        let mut lower: u64 = start;
        while lower < end
            invariant
                np == inv.plots@.len(),
                np > 0,
                inv.bounded(),
                1 <= class_width <= DBH_MICRO_MAX,
                start <= lower,
                lower <= end + class_width,
                end <= 2 * DBH_MICRO_MAX,
                start <= min_dbh,
                max_dbh < end,
                forall|p: int, t: int|
                    0 <= p < inv.plots@.len() && 0 <= t < inv.plots@[p].trees@.len() && (
                    #[trigger] inv.plots@[p].trees@[t]).status is Live ==> min_dbh
                        <= inv.plots@[p].trees@[t].dbh <= max_dbh,
                forall|i: int|
                    0 <= i < classes@.len() ==> class_ok(
                        *inv,
                        class_width as int,
                        #[trigger] classes@[i],
                    ),
                forall|i: int| 0 <= i < classes@.len() ==> (#[trigger] classes@[i]).upper <= lower,
                forall|i: int, j: int|
                    0 <= i < j < classes@.len() ==> (#[trigger] classes@[i]).upper <= (
                    #[trigger] classes@[j]).lower,
                forall|p: int, t: int|
                    0 <= p < inv.plots@.len() && 0 <= t < inv.plots@[p].trees@.len() && (
                    #[trigger] inv.plots@[p].trees@[t]).status is Live
                        && inv.plots@[p].trees@[t].dbh < lower ==> covered(
                        classes@,
                        inv.plots@[p].trees@[t].dbh as int,
                    ),
            decreases end + class_width - lower,
        {
            let upper = lower + class_width;
            let sums = class_sums(inv, lower, upper);
            let ghost before = classes@;
            if sums.2 > 0 {
                proof {
                    lemma_cpsum_nonneg(
                        inv.plots@,
                        np as int,
                        ClassTerm::Tpa,
                        lower as int,
                        upper as int,
                    );
                    lemma_cpsum_nonneg(
                        inv.plots@,
                        np as int,
                        ClassTerm::BasalArea,
                        lower as int,
                        upper as int,
                    );
                    vstd::arithmetic::mul::lemma_mul_is_associative(
                        np as int,
                        PLOT_TREES_MAX as int,
                        METRIC_TERM_MAX as int,
                    );
                    vstd::arithmetic::mul::lemma_mul_is_associative(
                        np as int,
                        PLOT_TREES_MAX as int,
                        EF_MICRO_MAX as int,
                    );
                    lemma_div_le(sums.1 as int, np as int, PLOT_METRIC_MAX as int);
                    lemma_div_le(
                        sums.0 as int,
                        np as int,
                        (PLOT_TREES_MAX as int) * (EF_MICRO_MAX as int),
                    );
                }
                let tpa: u64 = (sums.0 / (np as u128)) as u64;
                let ba: u64 = (sums.1 / (np as u128)) as u64;
                classes.push(
                    DiameterClass {
                        lower,
                        upper,
                        midpoint: lower + class_width / 2,
                        tpa,
                        basal_area: ba,
                        tree_count: sums.2,
                    },
                );
            }
            proof {
                let new = classes@;
                assert forall|p: int, t: int|
                    0 <= p < inv.plots@.len() && 0 <= t < inv.plots@[p].trees@.len() && (
                    #[trigger] inv.plots@[p].trees@[t]).status is Live
                        && inv.plots@[p].trees@[t].dbh < upper implies covered(
                    new,
                    inv.plots@[p].trees@[t].dbh as int,
                ) by {
                    let d = inv.plots@[p].trees@[t].dbh as int;
                    if d < lower {
                        let i = choose|i: int|
                            0 <= i < before.len() && (#[trigger] before[i]).lower <= d
                                < before[i].upper;
                        assert(new[i].lower <= d < new[i].upper);
                    } else {
                        lemma_cpsum_count_pos(
                            inv.plots@,
                            np as int,
                            p,
                            t,
                            lower as int,
                            upper as int,
                        );
                        assert(new[new.len() - 1].lower <= d < new[new.len() - 1].upper);
                    }
                }
            }
            lower = upper;
        }
        DiameterDistribution { class_width, classes }
    }
}

/// The three class accumulators over the whole inventory for one bin.
fn class_sums(inv: &ForestInventory, lo: u64, hi: u64) -> (r: (u128, u128, u64))
    requires
        inv.bounded(),
    ensures
        r.0 == cpsum(inv.plots@, inv.plots@.len() as int, ClassTerm::Tpa, lo as int, hi as int),
        r.1 == cpsum(
            inv.plots@,
            inv.plots@.len() as int,
            ClassTerm::BasalArea,
            lo as int,
            hi as int,
        ),
        r.2 == cpsum(inv.plots@, inv.plots@.len() as int, ClassTerm::Count, lo as int, hi as int),
        r.0 <= (inv.plots@.len() as int) * (PLOT_TREES_MAX as int) * (EF_MICRO_MAX as int),
        r.1 <= (inv.plots@.len() as int) * (PLOT_TREES_MAX as int) * (METRIC_TERM_MAX as int),
{
    let np = inv.plots.len();
    let mut tpa: u128 = 0;
    let mut ba: u128 = 0;
    let mut count: u64 = 0;
    let mut p: usize = 0;
    while p < np
        invariant
            p <= np,
            np == inv.plots@.len(),
            inv.bounded(),
            tpa == cpsum(inv.plots@, p as int, ClassTerm::Tpa, lo as int, hi as int),
            ba == cpsum(inv.plots@, p as int, ClassTerm::BasalArea, lo as int, hi as int),
            count == cpsum(inv.plots@, p as int, ClassTerm::Count, lo as int, hi as int),
            tpa <= (p as int) * (PLOT_TREES_MAX as int) * (EF_MICRO_MAX as int),
            ba <= (p as int) * (PLOT_TREES_MAX as int) * (METRIC_TERM_MAX as int),
            count <= (p as int) * (PLOT_TREES_MAX as int),
        decreases np - p,
    {
        let plot = &inv.plots[p];
        let nt = plot.trees.len();
        let mut t: usize = 0;
        while t < nt
            invariant
                t <= nt,
                p < np,
                np == inv.plots@.len(),
                inv.bounded(),
                *plot == inv.plots@[p as int],
                nt == plot.trees@.len(),
                nt <= PLOT_TREES_MAX,
                tpa == cpsum(inv.plots@, p as int, ClassTerm::Tpa, lo as int, hi as int) + ctsum(
                    plot.trees@,
                    t as int,
                    ClassTerm::Tpa,
                    lo as int,
                    hi as int,
                ),
                ba == cpsum(inv.plots@, p as int, ClassTerm::BasalArea, lo as int, hi as int)
                    + ctsum(plot.trees@, t as int, ClassTerm::BasalArea, lo as int, hi as int),
                count == cpsum(inv.plots@, p as int, ClassTerm::Count, lo as int, hi as int)
                    + ctsum(plot.trees@, t as int, ClassTerm::Count, lo as int, hi as int),
                tpa <= (p as int) * (PLOT_TREES_MAX as int) * (EF_MICRO_MAX as int) + (t as int) * (
                EF_MICRO_MAX as int),
                ba <= (p as int) * (PLOT_TREES_MAX as int) * (METRIC_TERM_MAX as int) + (t as int)
                    * (METRIC_TERM_MAX as int),
                count <= (p as int) * (PLOT_TREES_MAX as int) + t,
            decreases nt - t,
        {
            let tree = &plot.trees[t];
            if tree.is_live() && lo <= tree.dbh && tree.dbh < hi {
                tpa = tpa + tree.expansion_factor as u128;
                ba = ba + tree.basal_area_per_acre() as u128;
                count = count + 1;
            }
            t += 1;
        }
        proof {
            assert((p as int) * (PLOT_TREES_MAX as int) + nt <= (p + 1 as int) * (
            PLOT_TREES_MAX as int)) by (nonlinear_arith)
                requires
                    nt <= PLOT_TREES_MAX,
            ;
            assert((p as int) * (PLOT_TREES_MAX as int) * (EF_MICRO_MAX as int) + (nt as int) * (
            EF_MICRO_MAX as int) <= (p + 1 as int) * (PLOT_TREES_MAX as int) * (
            EF_MICRO_MAX as int)) by (nonlinear_arith)
                requires
                    nt <= PLOT_TREES_MAX,
            ;
            assert((p as int) * (PLOT_TREES_MAX as int) * (METRIC_TERM_MAX as int) + (nt as int)
                * (METRIC_TERM_MAX as int) <= (p + 1 as int) * (PLOT_TREES_MAX as int) * (
            METRIC_TERM_MAX as int)) by (nonlinear_arith)
                requires
                    nt <= PLOT_TREES_MAX,
            ;
        }
        p += 1;
    }
    (tpa, ba, count)
}

/// The smallest and largest live-tree diameters, `None` when no tree is
/// alive.
fn min_max_live_dbh(inv: &ForestInventory) -> (r: Option<(u64, u64)>)
    requires
        inv.bounded(),
    ensures
        match r {
            None => forall|p: int, t: int|
                0 <= p < inv.plots@.len() && 0 <= t < inv.plots@[p].trees@.len() ==> !((
                #[trigger] inv.plots@[p].trees@[t]).status is Live),
            Some(b) => {
                &&& b.0 <= b.1 <= DBH_MICRO_MAX
                &&& forall|p: int, t: int|
                    0 <= p < inv.plots@.len() && 0 <= t < inv.plots@[p].trees@.len() && (
                    #[trigger] inv.plots@[p].trees@[t]).status is Live ==> b.0
                        <= inv.plots@[p].trees@[t].dbh <= b.1
            },
        },
{
    let np = inv.plots.len();
    let mut found: Option<(u64, u64)> = None;
    let mut p: usize = 0;
    while p < np
        invariant
            p <= np,
            np == inv.plots@.len(),
            inv.bounded(),
            match found {
                None => forall|q: int, t: int|
                    0 <= q < p && 0 <= t < inv.plots@[q].trees@.len() ==> !((
                    #[trigger] inv.plots@[q].trees@[t]).status is Live),
                Some(b) => {
                    &&& b.0 <= b.1 <= DBH_MICRO_MAX
                    &&& forall|q: int, t: int|
                        0 <= q < p && 0 <= t < inv.plots@[q].trees@.len() && (
                        #[trigger] inv.plots@[q].trees@[t]).status is Live ==> b.0
                            <= inv.plots@[q].trees@[t].dbh <= b.1
                },
            },
        decreases np - p,
    {
        let plot = &inv.plots[p];
        let nt = plot.trees.len();
        let mut t: usize = 0;
        while t < nt
            invariant
                t <= nt,
                p < np,
                np == inv.plots@.len(),
                inv.bounded(),
                *plot == inv.plots@[p as int],
                nt == plot.trees@.len(),
                match found {
                    None => (forall|q: int, u: int|
                        0 <= q < p && 0 <= u < inv.plots@[q].trees@.len() ==> !((
                        #[trigger] inv.plots@[q].trees@[u]).status is Live)) && (forall|u: int|
                        0 <= u < t ==> !((#[trigger] plot.trees@[u]).status is Live)),
                    Some(b) => {
                        &&& b.0 <= b.1 <= DBH_MICRO_MAX
                        &&& forall|q: int, u: int|
                            0 <= q < p && 0 <= u < inv.plots@[q].trees@.len() && (
                            #[trigger] inv.plots@[q].trees@[u]).status is Live ==> b.0
                                <= inv.plots@[q].trees@[u].dbh <= b.1
                        &&& forall|u: int|
                            0 <= u < t && (#[trigger] plot.trees@[u]).status is Live ==> b.0
                                <= plot.trees@[u].dbh <= b.1
                    },
                },
            decreases nt - t,
        {
            let tree = &plot.trees[t];
            if tree.is_live() {
                found = match found {
                    None => Some((tree.dbh, tree.dbh)),
                    Some((lo, hi)) => Some(
                        (
                            if tree.dbh < lo {
                                tree.dbh
                            } else {
                                lo
                            },
                            if tree.dbh > hi {
                                tree.dbh
                            } else {
                                hi
                            },
                        ),
                    ),
                };
            }
            t += 1;
        }
        p += 1;
    }
    found
}

/// Each diameter falls into at most one class: together with coverage,
/// every live tree lies in exactly one emitted class.
pub proof fn lemma_class_unique(s: Seq<DiameterClass>, d: int, i: int, j: int)
    requires
        forall|a: int, b: int|
            0 <= a < b < s.len() ==> (#[trigger] s[a]).upper <= (#[trigger] s[b]).lower,
        0 <= i < s.len(),
        0 <= j < s.len(),
        s[i].lower <= d < s[i].upper,
        s[j].lower <= d < s[j].upper,
    ensures
        i == j,
{
    if i < j {
        assert(s[i].upper <= s[j].lower);
    } else if j < i {
        assert(s[j].upper <= s[i].lower);
    }
}

} // verus!
