//! A complete forest inventory dataset: named, ordered plots, and the
//! per-acre means across them.

use vstd::prelude::*;

use crate::fixed::lemma_div_le;
use crate::plot::{Plot, PLOT_METRIC_MAX};
use crate::species::{lemma_lex_total, lemma_lex_trans, lex_lt, str_lex_lt, Species};

verus! {

/// Largest supported number of plots in one inventory.
pub const INV_PLOTS_MAX: usize = 1_000_000;

/// One of the four per-plot per-acre metrics.
#[derive(Debug, Clone, Copy, PartialEq, Eq, Structural)]
pub enum PlotMetric {
    TreesPerAcre,
    BasalAreaPerAcre,
    VolumeCuftPerAcre,
    VolumeBdftPerAcre,
}

/// The chosen metric's value on one plot.
pub open spec fn plot_metric_value(p: Plot, m: PlotMetric) -> int {
    match m {
        PlotMetric::TreesPerAcre => p.spec_tpa(),
        PlotMetric::BasalAreaPerAcre => p.spec_ba(),
        PlotMetric::VolumeCuftPerAcre => p.spec_vol_cuft(),
        PlotMetric::VolumeBdftPerAcre => p.spec_vol_bdft(),
    }
}

/// Sum of the chosen metric over the first `n` plots.
pub open spec fn metric_sum_upto(plots: Seq<Plot>, n: int, m: PlotMetric) -> int
    decreases n,
{
    if n <= 0 {
        0
    } else {
        metric_sum_upto(plots, n - 1, m) + plot_metric_value(plots[n - 1], m)
    }
}

/// Whether a species (this name, this code) occurs on any tree of the
/// inventory, live or not.
pub open spec fn species_occurs(plots: Seq<Plot>, sp: Species) -> bool {
    exists|p: int, t: int|
        0 <= p < plots.len() && 0 <= t < plots[p].trees@.len()
            && (#[trigger] plots[p].trees@[t]).species.code@ == sp.code@
            && plots[p].trees@[t].species.common_name@ == sp.common_name@
}

/// Whether some listed species carries the given code.
pub open spec fn code_in(s: Seq<Species>, code: Seq<char>) -> bool {
    exists|i: int| 0 <= i < s.len() && (#[trigger] s[i]).code@ == code
}

/// Strictly sorted by code, in lexicographic order.
pub open spec fn sorted_by_code(s: Seq<Species>) -> bool {
    forall|i: int, j: int|
        0 <= i < j < s.len() ==> lex_lt((#[trigger] s[i]).code@, (#[trigger] s[j]).code@)
}

/// A complete forest inventory dataset. Fractional quantities are in
/// micro-units.
#[derive(Debug, Clone)]
pub struct ForestInventory {
    /// Name or identifier for this inventory
    pub name: String,
    /// Total area in micro-acres
    pub total_acres: Option<u64>,
    /// All plots in the inventory
    pub plots: Vec<Plot>,
}

/// First position whose code is not lexicographically below the given
/// code, in a code-sorted list.
fn find_insert_pos(list: &Vec<Species>, code: &str) -> (k: usize)
    ensures
        k <= list@.len(),
        forall|j: int| 0 <= j < k ==> lex_lt((#[trigger] list@[j]).code@, code@),
        k < list@.len() ==> !lex_lt(list@[k as int].code@, code@),
{
    let n = list.len();
    let mut k: usize = 0;
    while k < n
        invariant
            k <= n,
            n == list@.len(),
            forall|j: int| 0 <= j < k ==> lex_lt((#[trigger] list@[j]).code@, code@),
        decreases n - k,
    {
        if !str_lex_lt(list[k].code.as_str(), code) {
            return k;
        }
        k += 1;
    }
    k
}

/// Insert a species into a code-sorted list, keeping it sorted and
/// deduplicated by code; an already-present code leaves the list unchanged.
fn insert_sorted(list: &mut Vec<Species>, sp: &Species)
    requires
        sorted_by_code(old(list)@),
    ensures
        sorted_by_code(final(list)@),
        code_in(final(list)@, sp.code@),
        forall|c: Seq<char>| #[trigger] code_in(old(list)@, c) ==> code_in(final(list)@, c),
        forall|i: int|
            0 <= i < final(list)@.len() ==> (#[trigger] final(list)@[i]) == *sp || exists|j: int|
                0 <= j < old(list)@.len() && final(list)@[i] == old(list)@[j],
{
    let ghost orig = list@;
    let n = list.len();
    let k = find_insert_pos(list, sp.code.as_str());
    if k < n && list[k].code == sp.code {
        proof {
            assert(code_in(list@, sp.code@));
        }
        return ;
    }
    proof {
        if k < n {
            lemma_lex_total(sp.code@, orig[k as int].code@);
            if sp.code@ =~= orig[k as int].code@ {
                assert(orig[k as int].code@ == sp.code@);
            }
            assert(lex_lt(sp.code@, orig[k as int].code@));
        }
        orig.insert_ensures(k as int, *sp);
    }
    list.insert(k, sp.duplicate());
    proof {
        let new = list@;
        assert(new == orig.insert(k as int, *sp));
        assert forall|i: int| 0 <= i < new.len() implies (#[trigger] new[i]) == *sp || exists|j: int|
            0 <= j < orig.len() && new[i] == orig[j] by {
            if i < k {
                assert(new[i] == orig[i]);
            } else if i > k {
                assert(new[i] == orig[i - 1]);
            }
        }
        assert forall|i: int, j: int| 0 <= i < j < new.len() implies lex_lt(
            (#[trigger] new[i]).code@,
            (#[trigger] new[j]).code@,
        ) by {
            if j < k {
            } else if i == k && j > k {
                assert(new[j] == orig[j - 1]);
                if j - 1 > k {
                    lemma_lex_trans(sp.code@, orig[k as int].code@, orig[j - 1].code@);
                }
            } else if i < k && j == k {
                assert(new[i] == orig[i]);
            } else if i < k && j > k {
                assert(new[i] == orig[i]);
                assert(new[j] == orig[j - 1]);
            } else if i > k {
                assert(new[i] == orig[i - 1]);
                assert(new[j] == orig[j - 1]);
            }
        }
        assert(new[k as int] == *sp);
        assert(code_in(new, sp.code@));
        assert forall|c: Seq<char>| #[trigger] code_in(orig, c) implies code_in(new, c) by {
            let i = choose|i: int| 0 <= i < orig.len() && (#[trigger] orig[i]).code@ == c;
            if i < k {
                assert(new[i].code@ == c);
            } else {
                assert(new[i + 1].code@ == c);
            }
        }
    }
}

impl ForestInventory {
    /// Plot count within range and every plot within the supported ranges.
    pub open spec fn bounded(&self) -> bool {
        &&& self.plots@.len() <= INV_PLOTS_MAX
        &&& forall|i: int| 0 <= i < self.plots@.len() ==> (#[trigger] self.plots@[i]).bounded()
    }

    /// Arithmetic mean of the chosen metric across all plots, zero when
    /// there are none.
    pub open spec fn spec_mean(&self, m: PlotMetric) -> int {
        if self.plots@.len() == 0 {
            0
        } else {
            metric_sum_upto(self.plots@, self.plots@.len() as int, m) / (self.plots@.len() as int)
        }
    }

    /// Create a new empty inventory.
    pub fn new(name: &str) -> (r: Self)
        ensures
            r.name@ == name@,
            r.total_acres is None,
            r.plots@.len() == 0,
            r.bounded(),
    {
        ForestInventory { name: name.to_owned(), total_acres: None, plots: Vec::new() }
    }

    /// Total number of plots.
    pub fn num_plots(&self) -> (r: usize)
        ensures
            r == self.plots@.len(),
    {
        self.plots.len()
    }

    /// Total number of measured trees.
    pub fn num_trees(&self) -> (r: u64)
        requires
            self.bounded(),
        ensures
            r == tree_count_upto(self.plots@, self.plots@.len() as int),
    {
        let n = self.plots.len();
        let mut sum: u64 = 0;
        let mut i: usize = 0;
        while i < n
            invariant
                i <= n,
                n == self.plots@.len(),
                self.bounded(),
                sum == tree_count_upto(self.plots@, i as int),
                sum <= (i as int) * (crate::plot::PLOT_TREES_MAX as int),
            decreases n - i,
        {
            sum = sum + self.plots[i].trees.len() as u64;
            i += 1;
        }
        sum
    }

    /// The chosen per-acre metric of one plot.
    fn plot_metric(p: &Plot, m: PlotMetric) -> (r: u64)
        requires
            p.bounded(),
        ensures
            r == plot_metric_value(*p, m),
            r <= PLOT_METRIC_MAX,
    {
        match m {
            PlotMetric::TreesPerAcre => p.trees_per_acre(),
            PlotMetric::BasalAreaPerAcre => p.basal_area_per_acre(),
            PlotMetric::VolumeCuftPerAcre => p.volume_cuft_per_acre(),
            PlotMetric::VolumeBdftPerAcre => p.volume_bdft_per_acre(),
        }
    }

    /// The chosen metric's value on every plot, in plot order.
    pub fn metric_values(&self, m: PlotMetric) -> (r: Vec<u64>)
        requires
            self.bounded(),
        ensures
            r@.len() == self.plots@.len(),
            forall|i: int|
                0 <= i < r@.len() ==> r@[i] == plot_metric_value(self.plots@[i], m) && r@[i]
                    <= PLOT_METRIC_MAX,
    {
        let n = self.plots.len();
        let mut out: Vec<u64> = Vec::new();
        let mut i: usize = 0;
        while i < n
            invariant
                i <= n,
                n == self.plots@.len(),
                self.bounded(),
                out@.len() == i,
                forall|j: int|
                    0 <= j < i ==> out@[j] == plot_metric_value(self.plots@[j], m) && out@[j]
                        <= PLOT_METRIC_MAX,
            decreases n - i,
        {
            out.push(Self::plot_metric(&self.plots[i], m));
            i += 1;
        }
        out
    }

    /// Arithmetic mean of the chosen metric across all plots.
    pub fn mean_metric(&self, m: PlotMetric) -> (r: u64)
        requires
            self.bounded(),
        ensures
            r == self.spec_mean(m),
            r <= PLOT_METRIC_MAX,
    {
        let n = self.plots.len();
        if n == 0 {
            return 0;
        }
        let mut sum: u128 = 0;
        let mut i: usize = 0;
        while i < n
            invariant
                i <= n,
                n == self.plots@.len(),
                self.bounded(),
                sum == metric_sum_upto(self.plots@, i as int, m),
                sum <= (i as int) * (PLOT_METRIC_MAX as int),
            decreases n - i,
        {
            sum = sum + Self::plot_metric(&self.plots[i], m) as u128;
            i += 1;
        }
        proof {
            lemma_div_le(sum as int, n as int, PLOT_METRIC_MAX as int);
        }
        (sum / (n as u128)) as u64
    }

    /// Mean trees per acre across all plots.
    pub fn mean_tpa(&self) -> (r: u64)
        requires
            self.bounded(),
        ensures
            r == self.spec_mean(PlotMetric::TreesPerAcre),
            r <= PLOT_METRIC_MAX,
    {
        self.mean_metric(PlotMetric::TreesPerAcre)
    }

    /// Mean basal area per acre across all plots.
    pub fn mean_basal_area(&self) -> (r: u64)
        requires
            self.bounded(),
        ensures
            r == self.spec_mean(PlotMetric::BasalAreaPerAcre),
            r <= PLOT_METRIC_MAX,
    {
        self.mean_metric(PlotMetric::BasalAreaPerAcre)
    }

    /// Mean cubic foot volume per acre across all plots.
    pub fn mean_volume_cuft(&self) -> (r: u64)
        requires
            self.bounded(),
        ensures
            r == self.spec_mean(PlotMetric::VolumeCuftPerAcre),
            r <= PLOT_METRIC_MAX,
    {
        self.mean_metric(PlotMetric::VolumeCuftPerAcre)
    }

    /// Mean board foot volume per acre across all plots.
    pub fn mean_volume_bdft(&self) -> (r: u64)
        requires
            self.bounded(),
        ensures
            r == self.spec_mean(PlotMetric::VolumeBdftPerAcre),
            r <= PLOT_METRIC_MAX,
    {
        self.mean_metric(PlotMetric::VolumeBdftPerAcre)
    }

    /// All species of the inventory, deduplicated by code and sorted by
    /// code; species that occur only on dead trees are included.
    pub fn species_list(&self) -> (r: Vec<Species>)
        ensures
            sorted_by_code(r@),
            forall|i: int| 0 <= i < r@.len() ==> species_occurs(self.plots@, #[trigger] r@[i]),
            forall|p: int, t: int|
                0 <= p < self.plots@.len() && 0 <= t < self.plots@[p].trees@.len() ==> code_in(
                    r@,
                    (#[trigger] self.plots@[p].trees@[t]).species.code@,
                ),
    {
        let np = self.plots.len();
        let mut out: Vec<Species> = Vec::new();
        let mut p: usize = 0;
        while p < np
            invariant
                p <= np,
                np == self.plots@.len(),
                sorted_by_code(out@),
                forall|i: int| 0 <= i < out@.len() ==> species_occurs(self.plots@, #[trigger] out@[i]),
                forall|q: int, t: int|
                    0 <= q < p && 0 <= t < self.plots@[q].trees@.len() ==> code_in(
                        out@,
                        (#[trigger] self.plots@[q].trees@[t]).species.code@,
                    ),
            decreases np - p,
        {
            let nt = self.plots[p].trees.len();
            let mut t: usize = 0;
            while t < nt
                invariant
                    t <= nt,
                    p < np,
                    np == self.plots@.len(),
                    nt == self.plots@[p as int].trees@.len(),
                    sorted_by_code(out@),
                    forall|i: int|
                        0 <= i < out@.len() ==> species_occurs(self.plots@, #[trigger] out@[i]),
                    forall|q: int, u: int|
                        0 <= q < p && 0 <= u < self.plots@[q].trees@.len() ==> code_in(
                            out@,
                            (#[trigger] self.plots@[q].trees@[u]).species.code@,
                        ),
                    forall|u: int|
                        0 <= u < t ==> code_in(
                            out@,
                            (#[trigger] self.plots@[p as int].trees@[u]).species.code@,
                        ),
                decreases nt - t,
            {
                let ghost before = out@;
                insert_sorted(&mut out, &self.plots[p].trees[t].species);
                proof {
                    let ghost sp = self.plots@[p as int].trees@[t as int].species;
                    assert forall|i: int| 0 <= i < out@.len() implies species_occurs(
                        self.plots@,
                        #[trigger] out@[i],
                    ) by {
                        if out@[i] == sp {
                            assert((self.plots@[p as int].trees@[t as int]).species.code@
                                == out@[i].code@);
                            assert(species_occurs(self.plots@, out@[i]));
                        } else {
                            let j = choose|j: int|
                                0 <= j < before.len() && out@[i] == before[j];
                            assert(species_occurs(self.plots@, before[j]));
                        }
                    }
                }
                t += 1;
            }
            p += 1;
        }
        out
    }
}

/// Total number of trees on the first `n` plots.
pub open spec fn tree_count_upto(plots: Seq<Plot>, n: int) -> int
    decreases n,
{
    if n <= 0 {
        0
    } else {
        tree_count_upto(plots, n - 1) + plots[n - 1].trees@.len()
    }
}

} // verus!
