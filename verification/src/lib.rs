//! Forest sample-plot inventory analysis.
//!
//! The library works on a fixed-point model of the inventory: every
//! fractional quantity (diameters in inches, heights in feet, expansion
//! factors, areas, volumes, rates) is carried as an unsigned integer count
//! of micro-units, one micro-unit being one millionth of the quantity's
//! natural unit. All aggregation, composition, distribution, statistics
//! and projection arithmetic is exact integer arithmetic on that scale.

pub mod analyzer;
pub mod distribution;
pub mod error;
pub mod fixed;
pub mod growth;
pub mod io;
pub mod inventory;
pub mod metrics;
pub mod plot;
pub mod species;
pub mod statistics;
pub mod status;
pub mod tree;
pub mod web;

pub use analyzer::Analyzer;
pub use distribution::{DiameterClass, DiameterDistribution};
pub use error::ForestError;
pub use fixed::MICRO;
pub use growth::{project_growth, GrowthModel, GrowthProjection};
pub use metrics::{compute_stand_metrics, SpeciesComposition, StandMetrics};
pub use inventory::{ForestInventory, PlotMetric};
pub use io::{CsvFormat, ExcelFormat, JsonFormat};
pub use plot::Plot;
pub use species::Species;
pub use statistics::{compute_ci, ConfidenceInterval, SamplingStatistics};
pub use status::{parse_tree_status, TreeStatus};
pub use tree::{Tree, VolumeEquation};
pub use web::{sanitize_filename, unix_now, ExportQuery};
