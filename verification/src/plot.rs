//! A sample plot and its per-acre metrics over live trees.

use vstd::prelude::*;

use crate::fixed::{isqrt, lemma_div_le, lemma_mul_le, mul_div, sqrt_floor, MICRO};
use crate::tree::{
    default_volume_equation, Tree, VolumeEquation, DBH_MICRO_MAX, EF_MICRO_MAX, METRIC_TERM_MAX,
    VOL_TREE_MAX,
};

verus! {

/// Largest supported number of trees on one plot.
pub const PLOT_TREES_MAX: usize = 10_000;

/// Largest per-acre value of any per-plot metric, in micro-units:
/// `PLOT_TREES_MAX * METRIC_TERM_MAX`.
pub const PLOT_METRIC_MAX: u64 = 10_000_000_000_000_000_000;

/// Per-tree contribution to trees per acre: the expansion factor of a
/// live tree, zero otherwise.
pub open spec fn spec_tpa_term(t: Tree) -> int {
    if t.status is Live {
        t.expansion_factor as int
    } else {
        0
    }
}

/// Per-tree contribution to basal area per acre.
pub open spec fn spec_ba_term(t: Tree) -> int {
    if t.status is Live {
        t.spec_basal_area_per_acre()
    } else {
        0
    }
}

/// Per-tree contribution to cubic foot volume per acre: the tree's volume
/// times its expansion factor; trees without height contribute nothing.
pub open spec fn spec_vol_cuft_term(t: Tree, eq: VolumeEquation) -> int {
    if t.status is Live {
        match t.spec_volume_cuft(eq) {
            Some(v) => v * t.expansion_factor / (MICRO as int),
            None => 0,
        }
    } else {
        0
    }
}

/// Per-tree contribution to board foot volume per acre.
pub open spec fn spec_vol_bdft_term(t: Tree, eq: VolumeEquation) -> int {
    if t.status is Live {
        match t.spec_volume_bdft(eq) {
            Some(v) => v * t.expansion_factor / (MICRO as int),
            None => 0,
        }
    } else {
        0
    }
}

/// Per-tree contribution to the quadratic mean diameter numerator:
/// squared diameter weighted by the expansion factor.
pub open spec fn spec_qmd_num_term(t: Tree) -> int {
    if t.status is Live {
        t.dbh * t.dbh * t.expansion_factor
    } else {
        0
    }
}

/// Sum of `spec_tpa_term` over the first `n` trees.
pub open spec fn tpa_sum_upto(s: Seq<Tree>, n: int) -> int
    decreases n,
{
    if n <= 0 {
        0
    } else {
        tpa_sum_upto(s, n - 1) + spec_tpa_term(s[n - 1])
    }
}

/// Sum of `spec_ba_term` over the first `n` trees.
pub open spec fn ba_sum_upto(s: Seq<Tree>, n: int) -> int
    decreases n,
{
    if n <= 0 {
        0
    } else {
        ba_sum_upto(s, n - 1) + spec_ba_term(s[n - 1])
    }
}

/// Sum of `spec_vol_cuft_term` over the first `n` trees.
pub open spec fn vol_cuft_sum_upto(s: Seq<Tree>, n: int, eq: VolumeEquation) -> int
    decreases n,
{
    if n <= 0 {
        0
    } else {
        vol_cuft_sum_upto(s, n - 1, eq) + spec_vol_cuft_term(s[n - 1], eq)
    }
}

/// Sum of `spec_vol_bdft_term` over the first `n` trees.
pub open spec fn vol_bdft_sum_upto(s: Seq<Tree>, n: int, eq: VolumeEquation) -> int
    decreases n,
{
    if n <= 0 {
        0
    } else {
        vol_bdft_sum_upto(s, n - 1, eq) + spec_vol_bdft_term(s[n - 1], eq)
    }
}

/// Sum of `spec_qmd_num_term` over the first `n` trees.
pub open spec fn qmd_num_sum_upto(s: Seq<Tree>, n: int) -> int
    decreases n,
{
    if n <= 0 {
        0
    } else {
        qmd_num_sum_upto(s, n - 1) + spec_qmd_num_term(s[n - 1])
    }
}

/// The live trees among the first `n`, in order.
pub open spec fn live_upto(s: Seq<Tree>, n: int) -> Seq<Tree>
    decreases n,
{
    if n <= 0 {
        Seq::empty()
    } else if s[n - 1].status is Live {
        live_upto(s, n - 1).push(s[n - 1])
    } else {
        live_upto(s, n - 1)
    }
}

/// A sample plot in the forest inventory. Fractional quantities are in
/// micro-units.
#[derive(Debug, Clone)]
pub struct Plot {
    /// Unique plot identifier
    pub plot_id: u32,
    /// Plot size in micro-acres
    pub plot_size_acres: u64,
    /// Slope percentage, in micro-units
    pub slope_percent: Option<u64>,
    /// Aspect in micro-degrees
    pub aspect_degrees: Option<u64>,
    /// Elevation in micro-feet
    pub elevation_ft: Option<u64>,
    /// Trees measured on this plot
    pub trees: Vec<Tree>,
}

impl Plot {
    /// Tree count and every tree within the supported ranges.
    pub open spec fn bounded(&self) -> bool {
        &&& self.trees@.len() <= PLOT_TREES_MAX
        &&& forall|i: int| 0 <= i < self.trees@.len() ==> (#[trigger] self.trees@[i]).bounded()
    }

    /// Trees per acre over live trees.
    pub open spec fn spec_tpa(&self) -> int {
        tpa_sum_upto(self.trees@, self.trees@.len() as int)
    }

    /// Basal area per acre over live trees.
    pub open spec fn spec_ba(&self) -> int {
        ba_sum_upto(self.trees@, self.trees@.len() as int)
    }

    /// Cubic foot volume per acre over live trees, default coefficients.
    pub open spec fn spec_vol_cuft(&self) -> int {
        vol_cuft_sum_upto(self.trees@, self.trees@.len() as int, default_volume_equation())
    }

    /// Board foot volume per acre over live trees, default coefficients.
    pub open spec fn spec_vol_bdft(&self) -> int {
        vol_bdft_sum_upto(self.trees@, self.trees@.len() as int, default_volume_equation())
    }

    /// Quadratic mean diameter of live trees, in micro-inches: the square
    /// root of the expansion-factor-weighted mean squared diameter, zero
    /// when no live tree carries any expansion.
    pub open spec fn spec_qmd(&self) -> int {
        let den = self.spec_tpa();
        if den <= 0 {
            0
        } else {
            sqrt_floor((qmd_num_sum_upto(self.trees@, self.trees@.len() as int) / den) as nat) as int
        }
    }

    /// Only the live trees on this plot, in order.
    pub fn live_trees(&self) -> (r: Vec<Tree>)
        ensures
            r@ == live_upto(self.trees@, self.trees@.len() as int),
    {
        let mut out: Vec<Tree> = Vec::new();
        let n = self.trees.len();
        let mut i: usize = 0;
        while i < n
            invariant
                i <= n,
                n == self.trees@.len(),
                out@ == live_upto(self.trees@, i as int),
            decreases n - i,
        {
            let t = &self.trees[i];
            if t.is_live() {
                out.push(t.duplicate());
            }
            i += 1;
        }
        out
    }

    /// Trees per acre: the summed expansion factors of live trees.
    pub fn trees_per_acre(&self) -> (r: u64)
        requires
            self.bounded(),
        ensures
            r == self.spec_tpa(),
            r <= PLOT_METRIC_MAX,
    {
        let n = self.trees.len();
        let mut sum: u64 = 0;
        let mut i: usize = 0;
        while i < n
            invariant
                i <= n,
                n == self.trees@.len(),
                self.bounded(),
                sum == tpa_sum_upto(self.trees@, i as int),
                sum <= i * METRIC_TERM_MAX,
            decreases n - i,
        {
            let t = &self.trees[i];
            if t.is_live() {
                sum = sum + t.expansion_factor;
            }
            i += 1;
        }
        sum
    }

    /// Basal area per acre over live trees.
    pub fn basal_area_per_acre(&self) -> (r: u64)
        requires
            self.bounded(),
        ensures
            r == self.spec_ba(),
            r <= PLOT_METRIC_MAX,
    {
        let n = self.trees.len();
        let mut sum: u64 = 0;
        let mut i: usize = 0;
        while i < n
            invariant
                i <= n,
                n == self.trees@.len(),
                self.bounded(),
                sum == ba_sum_upto(self.trees@, i as int),
                sum <= i * METRIC_TERM_MAX,
            decreases n - i,
        {
            let t = &self.trees[i];
            if t.is_live() {
                sum = sum + t.basal_area_per_acre();
            }
            i += 1;
        }
        sum
    }

    /// Cubic foot volume per acre over live trees, default coefficients.
    pub fn volume_cuft_per_acre(&self) -> (r: u64)
        requires
            self.bounded(),
        ensures
            r == self.spec_vol_cuft(),
            r <= PLOT_METRIC_MAX,
    {
        let eq = VolumeEquation::default();
        let n = self.trees.len();
        let mut sum: u64 = 0;
        let mut i: usize = 0;
        while i < n
            invariant
                i <= n,
                n == self.trees@.len(),
                self.bounded(),
                eq == default_volume_equation(),
                sum == vol_cuft_sum_upto(self.trees@, i as int, eq),
                sum <= i * METRIC_TERM_MAX,
            decreases n - i,
        {
            let t = &self.trees[i];
            if t.is_live() {
                match t.volume_cuft_with(&eq) {
                    Some(v) => {
                        proof {
                            lemma_mul_le(
                                v as int,
                                t.expansion_factor as int,
                                VOL_TREE_MAX as int,
                                EF_MICRO_MAX as int,
                            );
                            lemma_div_le(
                                (v as int) * (t.expansion_factor as int),
                                MICRO as int,
                                METRIC_TERM_MAX as int,
                            );
                        }
                        sum = sum + mul_div(v, t.expansion_factor, MICRO);
                    },
                    None => {},
                }
            }
            i += 1;
        }
        sum
    }

    /// Board foot volume per acre over live trees, default coefficients.
    pub fn volume_bdft_per_acre(&self) -> (r: u64)
        requires
            self.bounded(),
        ensures
            r == self.spec_vol_bdft(),
            r <= PLOT_METRIC_MAX,
    {
        let eq = VolumeEquation::default();
        let n = self.trees.len();
        let mut sum: u64 = 0;
        let mut i: usize = 0;
        while i < n
            invariant
                i <= n,
                n == self.trees@.len(),
                self.bounded(),
                eq == default_volume_equation(),
                sum == vol_bdft_sum_upto(self.trees@, i as int, eq),
                sum <= i * METRIC_TERM_MAX,
            decreases n - i,
        {
            let t = &self.trees[i];
            if t.is_live() {
                match t.volume_bdft_with(&eq) {
                    Some(v) => {
                        proof {
                            lemma_mul_le(
                                v as int,
                                t.expansion_factor as int,
                                VOL_TREE_MAX as int,
                                EF_MICRO_MAX as int,
                            );
                            lemma_div_le(
                                (v as int) * (t.expansion_factor as int),
                                MICRO as int,
                                METRIC_TERM_MAX as int,
                            );
                        }
                        sum = sum + mul_div(v, t.expansion_factor, MICRO);
                    },
                    None => {},
                }
            }
            i += 1;
        }
        sum
    }

    /// Quadratic mean diameter of live trees, in micro-inches.
    pub fn quadratic_mean_diameter(&self) -> (r: u64)
        requires
            self.bounded(),
        ensures
            r == self.spec_qmd(),
    {
        let den = self.trees_per_acre();
        if den == 0 {
            return 0;
        }
        let n = self.trees.len();
        let mut num: u128 = 0;
        let mut i: usize = 0;
        while i < n
            invariant
                i <= n,
                n == self.trees@.len(),
                self.bounded(),
                num == qmd_num_sum_upto(self.trees@, i as int),
                num <= (i as int) * (DBH_MICRO_MAX as int) * (DBH_MICRO_MAX as int) * (
                EF_MICRO_MAX as int),
            decreases n - i,
        {
            let t = &self.trees[i];
            if t.is_live() {
                proof {
                    lemma_mul_le(
                        t.dbh as int,
                        t.dbh as int,
                        DBH_MICRO_MAX as int,
                        DBH_MICRO_MAX as int,
                    );
                    lemma_mul_le(
                        (t.dbh as int) * (t.dbh as int),
                        t.expansion_factor as int,
                        (DBH_MICRO_MAX as int) * (DBH_MICRO_MAX as int),
                        EF_MICRO_MAX as int,
                    );
                }
                num = num + (t.dbh as u128) * (t.dbh as u128) * (t.expansion_factor as u128);
            }
            i += 1;
        }
        let q = isqrt(num / (den as u128));
        proof {
            vstd::arithmetic::div_mod::lemma_div_pos_is_pos(num as int, den as int);
        }
        q as u64
    }
}

/// On a plot with no live trees every per-acre sum is zero.
proof fn lemma_sums_all_dead(ts: Seq<Tree>, n: int, eq: VolumeEquation)
    requires
        0 <= n <= ts.len(),
        forall|i: int| 0 <= i < ts.len() ==> !((#[trigger] ts[i]).status is Live),
    ensures
        tpa_sum_upto(ts, n) == 0,
        ba_sum_upto(ts, n) == 0,
        vol_cuft_sum_upto(ts, n, eq) == 0,
        vol_bdft_sum_upto(ts, n, eq) == 0,
    decreases n,
{
    if n > 0 {
        lemma_sums_all_dead(ts, n - 1, eq);
    }
}

/// A plot with no live trees has zero for every per-acre metric and for
/// the quadratic mean diameter.
pub proof fn lemma_plot_all_dead(p: Plot)
    requires
        forall|i: int| 0 <= i < p.trees@.len() ==> !((#[trigger] p.trees@[i]).status is Live),
    ensures
        p.spec_tpa() == 0,
        p.spec_ba() == 0,
        p.spec_vol_cuft() == 0,
        p.spec_vol_bdft() == 0,
        p.spec_qmd() == 0,
{
    lemma_sums_all_dead(p.trees@, p.trees@.len() as int, default_volume_equation());
}

} // verus!
