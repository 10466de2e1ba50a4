//! Unified analysis API over one inventory.

use vstd::prelude::*;

use crate::distribution::{class_ok, covered, DiameterDistribution};
use crate::error::ForestError;
use crate::growth::{project_growth, proj_ok, GrowthModel, GrowthProjection};
use crate::inventory::{ForestInventory, PlotMetric};
use crate::metrics::{
    comp_entry_ok, compute_stand_metrics, sorted_by_ba_desc, spec_mean_qmd, stand_sum, SpTerm,
    StandMetrics,
};
use crate::statistics::{ci_ok, metric_vals, SamplingStatistics, T_MICRO_MAX};
use crate::tree::DBH_MICRO_MAX;

verus! {

/// Unified analysis API that groups all analysis operations on an
/// inventory. It holds only a reference and no state of its own.
pub struct Analyzer<'a> {
    /// The inventory under analysis
    pub inventory: &'a ForestInventory,
}

impl<'a> Analyzer<'a> {
    /// Create a new analyzer for the given inventory.
    pub fn new(inventory: &'a ForestInventory) -> (r: Self)
        ensures
            r.inventory == inventory,
    {
        Analyzer { inventory }
    }

    /// Compute stand-level metrics; see `compute_stand_metrics`.
    pub fn stand_metrics(&self) -> (m: StandMetrics)
        requires
            self.inventory.bounded(),
        ensures
            m.total_tpa == self.inventory.spec_mean(PlotMetric::TreesPerAcre),
            m.total_basal_area == self.inventory.spec_mean(PlotMetric::BasalAreaPerAcre),
            m.total_volume_cuft == self.inventory.spec_mean(PlotMetric::VolumeCuftPerAcre),
            m.total_volume_bdft == self.inventory.spec_mean(PlotMetric::VolumeBdftPerAcre),
            m.quadratic_mean_diameter == spec_mean_qmd(*self.inventory),
            stand_sum(self.inventory.plots@, SpTerm::HeightCount) == 0 ==> m.mean_height is None,
            m.num_species == m.species_composition@.len(),
            sorted_by_ba_desc(m.species_composition@),
            forall|i: int|
                0 <= i < m.species_composition@.len() ==> comp_entry_ok(
                    *self.inventory,
                    #[trigger] m.species_composition@[i],
                ),
    {
        compute_stand_metrics(self.inventory)
    }

    /// Compute sampling statistics; see `SamplingStatistics::compute`.
    pub fn sampling_statistics(&self, confidence: u64, t_value: u64) -> (r: Result<
        SamplingStatistics,
        ForestError,
    >)
        requires
            self.inventory.bounded(),
            t_value <= T_MICRO_MAX,
        ensures
            self.inventory.plots@.len() < 2 <==> r is Err,
            r matches Err(e) ==> e is InsufficientData,
            r matches Ok(s) ==> {
                &&& ci_ok(
                    metric_vals(*self.inventory, PlotMetric::TreesPerAcre),
                    confidence as int,
                    t_value as int,
                    s.tpa,
                )
                &&& ci_ok(
                    metric_vals(*self.inventory, PlotMetric::BasalAreaPerAcre),
                    confidence as int,
                    t_value as int,
                    s.basal_area,
                )
                &&& ci_ok(
                    metric_vals(*self.inventory, PlotMetric::VolumeCuftPerAcre),
                    confidence as int,
                    t_value as int,
                    s.volume_cuft,
                )
                &&& ci_ok(
                    metric_vals(*self.inventory, PlotMetric::VolumeBdftPerAcre),
                    confidence as int,
                    t_value as int,
                    s.volume_bdft,
                )
            },
    {
        SamplingStatistics::compute(self.inventory, confidence, t_value)
    }

    /// Build a diameter distribution; see
    /// `DiameterDistribution::from_inventory`.
    pub fn diameter_distribution(&self, class_width: u64) -> (r: DiameterDistribution)
        requires
            self.inventory.bounded(),
            1 <= class_width <= DBH_MICRO_MAX,
        ensures
            r.class_width == class_width,
            forall|i: int|
                0 <= i < r.classes@.len() ==> class_ok(
                    *self.inventory,
                    class_width as int,
                    #[trigger] r.classes@[i],
                ),
            forall|p: int, t: int|
                0 <= p < self.inventory.plots@.len() && 0 <= t
                    < self.inventory.plots@[p].trees@.len() && (
                #[trigger] self.inventory.plots@[p].trees@[t]).status is Live ==> covered(
                    r.classes@,
                    self.inventory.plots@[p].trees@[t].dbh as int,
                ),
    {
        DiameterDistribution::from_inventory(self.inventory, class_width)
    }

    /// Project stand growth; see `project_growth`.
    pub fn project_growth(&self, model: &GrowthModel, years: u32) -> (r: Result<
        Vec<GrowthProjection>,
        ForestError,
    >)
        requires
            self.inventory.bounded(),
            model.valid(),
            years < u32::MAX,
        ensures
            self.inventory.plots@.len() == 0 <==> r is Err,
            r matches Err(e) ==> e is InsufficientData,
            r matches Ok(v) ==> {
                &&& v@.len() == years + 1
                &&& forall|i: int| 0 <= i < v@.len() ==> (#[trigger] v@[i]).year == i
                &&& forall|i: int|
                    0 <= i < v@.len() ==> proj_ok(
                        *model,
                        self.inventory.spec_mean(PlotMetric::TreesPerAcre),
                        self.inventory.spec_mean(PlotMetric::BasalAreaPerAcre),
                        self.inventory.spec_mean(PlotMetric::VolumeCuftPerAcre),
                        self.inventory.spec_mean(PlotMetric::VolumeBdftPerAcre),
                        #[trigger] v@[i],
                        i as nat,
                    )
            },
    {
        project_growth(self.inventory, model, years)
    }
}

} // verus!
