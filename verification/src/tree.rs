//! A single tree measurement record and its derived quantities.

use vstd::prelude::*;

use crate::error::ForestError;
use crate::fixed::{lemma_div_le, lemma_mul_le, mul_div, MICRO};
use crate::species::Species;
use crate::status::TreeStatus;

verus! {

/// Largest supported diameter: 200 inches, in micro-inches.
pub const DBH_MICRO_MAX: u64 = 200_000_000;

/// Largest supported height: 400 feet, in micro-feet.
pub const HEIGHT_MICRO_MAX: u64 = 400_000_000;

/// Largest supported expansion factor: 1000 trees per acre, in micro-units.
pub const EF_MICRO_MAX: u64 = 1_000_000_000;

/// Largest supported multiplicative volume coefficient: 0.05, in micro-units.
pub const COEF_MICRO_MAX: u64 = 50_000;

/// Largest supported subtractive volume coefficient: 100, in micro-units.
pub const B2_MICRO_MAX: u64 = 100_000_000;

/// Largest basal area of one supported tree, in micro-square-feet.
pub const BA_SQFT_MAX: u64 = 220_000_000;

/// Largest volume of one supported tree, in micro-cubic-feet
/// (micro-board-feet for the board-foot equation).
pub const VOL_TREE_MAX: u64 = 1_000_000_000_000;

/// Largest per-acre contribution of one supported tree to any metric,
/// in micro-units per acre.
pub const METRIC_TERM_MAX: u64 = 1_000_000_000_000_000;

/// Pi, scaled by 10^15.
pub const PI_E15: u64 = 3_141_592_653_589_793;

/// Denominator turning `dbh * dbh * PI_E15` (micro-inches squared times
/// pi scaled by 10^15) into micro-square-feet: `576 * 10^15 * 10^6`.
pub const BA_DENOM: u128 = 576_000_000_000_000_000_000_000;

/// `MICRO` cubed: scales a product of three micro-unit factors back down.
pub const E18: u128 = 1_000_000_000_000_000_000;

/// Configurable volume equation coefficients, in micro-units.
///
/// Cubic foot volume: `V = cuft_b1 * DBH^2 * H`.
/// Board foot volume (Scribner): `V = bdft_b1 * DBH^2 * H - bdft_b2 * DBH`.
#[derive(Debug, Clone)]
pub struct VolumeEquation {
    /// Coefficient for cubic foot volume
    pub cuft_b1: u64,
    /// Coefficient for board foot volume
    pub bdft_b1: u64,
    /// Second (subtractive) coefficient for board foot volume
    pub bdft_b2: u64,
    /// Minimum DBH for board foot merchantability, in micro-inches
    pub bdft_min_dbh: u64,
}

impl VolumeEquation {
    /// Coefficients within the supported ranges.
    pub open spec fn valid(&self) -> bool {
        &&& self.cuft_b1 <= COEF_MICRO_MAX
        &&& self.bdft_b1 <= COEF_MICRO_MAX
        &&& self.bdft_b2 <= B2_MICRO_MAX
        &&& self.bdft_min_dbh <= DBH_MICRO_MAX
    }
}

/// The default coefficients: 0.002454 and 0.01159 / 4.0, with a 6 inch
/// merchantability limit.
pub open spec fn default_volume_equation() -> VolumeEquation {
    VolumeEquation { cuft_b1: 2454, bdft_b1: 11590, bdft_b2: 4_000_000, bdft_min_dbh: 6_000_000 }
}

impl Default for VolumeEquation {
    fn default() -> (r: Self)
        ensures
            r == default_volume_equation(),
            r.valid(),
    {
        VolumeEquation {
            cuft_b1: 2454,
            bdft_b1: 11590,
            bdft_b2: 4_000_000,
            bdft_min_dbh: 6_000_000,
        }
    }
}

/// A single tree measurement record. All fractional quantities are in
/// micro-units.
#[derive(Debug, Clone)]
pub struct Tree {
    /// Unique tree identifier within the plot
    pub tree_id: u32,
    /// Plot this tree belongs to
    pub plot_id: u32,
    /// Species information
    pub species: Species,
    /// Diameter at breast height, in micro-inches
    pub dbh: u64,
    /// Total height, in micro-feet
    pub height: Option<u64>,
    /// Crown ratio, in micro-units of the 0..1 fraction
    pub crown_ratio: Option<u64>,
    /// Tree status
    pub status: TreeStatus,
    /// Number of trees per acre this sample tree represents, in micro-units
    pub expansion_factor: u64,
    /// Age at breast height, if cored
    pub age: Option<u32>,
    /// Defect, in micro-units of the 0..1 fraction
    pub defect: Option<u64>,
}

impl Tree {
    /// All quantities within the ranges the arithmetic supports.
    pub open spec fn bounded(&self) -> bool {
        &&& self.dbh <= DBH_MICRO_MAX
        &&& self.expansion_factor <= EF_MICRO_MAX
        &&& (self.height matches Some(h) ==> h <= HEIGHT_MICRO_MAX)
        &&& (self.defect matches Some(d) ==> d <= MICRO)
    }

    /// A well-formed measurement: bounded, with positive diameter and
    /// expansion factor, positive height if present, and fractions in 0..1.
    pub open spec fn valid(&self) -> bool {
        &&& self.bounded()
        &&& self.dbh >= 1
        &&& self.expansion_factor >= 1
        &&& (self.height matches Some(h) ==> h >= 1)
        &&& (self.crown_ratio matches Some(c) ==> c <= MICRO)
    }

    /// The defect fraction, zero when not recorded.
    pub open spec fn spec_defect(&self) -> int {
        match self.defect {
            Some(d) => d as int,
            None => 0,
        }
    }

    /// Basal area in micro-square-feet: `pi * (dbh/2)^2 / 144`.
    pub open spec fn spec_basal_area_sqft(&self) -> int {
        self.dbh * self.dbh * PI_E15 / (BA_DENOM as int)
    }

    /// Basal area per acre in micro-units: basal area times the
    /// expansion factor.
    pub open spec fn spec_basal_area_per_acre(&self) -> int {
        self.spec_basal_area_sqft() * self.expansion_factor / (MICRO as int)
    }

    /// Cubic foot volume in micro-units, `None` when no height is recorded:
    /// `b1 * dbh^2 * height`, reduced by the defect fraction.
    pub open spec fn spec_volume_cuft(&self, eq: VolumeEquation) -> Option<int> {
        match self.height {
            None => None,
            Some(h) => Some(
                (eq.cuft_b1 * self.dbh * self.dbh * h / (E18 as int)) * (MICRO - self.spec_defect()) / (
                MICRO as int),
            ),
        }
    }

    /// Board foot volume in micro-units, `None` when no height is recorded,
    /// zero below the merchantability limit:
    /// `max(0, b1 * dbh^2 * height - b2 * dbh)`, reduced by the defect
    /// fraction.
    pub open spec fn spec_volume_bdft(&self, eq: VolumeEquation) -> Option<int> {
        match self.height {
            None => None,
            Some(h) => Some(
                if self.dbh < eq.bdft_min_dbh {
                    0
                } else {
                    let gross = eq.bdft_b1 * self.dbh * self.dbh * h / (E18 as int);
                    let sub = eq.bdft_b2 * self.dbh / (MICRO as int);
                    let net = if gross >= sub {
                        gross - sub
                    } else {
                        0
                    };
                    net * (MICRO - self.spec_defect()) / (MICRO as int)
                },
            ),
        }
    }

    /// Basal area in micro-square-feet.
    pub fn basal_area_sqft(&self) -> (r: u64)
        requires
            self.bounded(),
        ensures
            r == self.spec_basal_area_sqft(),
            r <= BA_SQFT_MAX,
    {
        proof {
            lemma_mul_le(self.dbh as int, self.dbh as int, DBH_MICRO_MAX as int, DBH_MICRO_MAX as int);
            lemma_mul_le(
                (self.dbh as int) * (self.dbh as int),
                PI_E15 as int,
                (DBH_MICRO_MAX as int) * (DBH_MICRO_MAX as int),
                PI_E15 as int,
            );
            lemma_div_le(
                (self.dbh as int) * (self.dbh as int) * (PI_E15 as int),
                BA_DENOM as int,
                BA_SQFT_MAX as int,
            );
        }
        let wide: u128 = (self.dbh as u128) * (self.dbh as u128) * (PI_E15 as u128) / BA_DENOM;
        wide as u64
    }

    /// Basal area per acre in micro-units.
    pub fn basal_area_per_acre(&self) -> (r: u64)
        requires
            self.bounded(),
        ensures
            r == self.spec_basal_area_per_acre(),
            r <= METRIC_TERM_MAX,
    {
        let ba = self.basal_area_sqft();
        proof {
            assert((ba as int) * (self.expansion_factor as int) <= (MICRO as int) * (
            METRIC_TERM_MAX as int)) by (nonlinear_arith)
                requires
                    ba <= BA_SQFT_MAX,
                    self.expansion_factor <= EF_MICRO_MAX,
            ;
            lemma_div_le(
                (ba as int) * (self.expansion_factor as int),
                MICRO as int,
                METRIC_TERM_MAX as int,
            );
        }
        mul_div(ba, self.expansion_factor, MICRO)
    }

    /// Cubic foot volume with the default equation.
    pub fn volume_cuft(&self) -> (r: Option<u64>)
        requires
            self.bounded(),
        ensures
            match r {
                Some(v) => self.spec_volume_cuft(default_volume_equation()) == Some(v as int) && v
                    <= VOL_TREE_MAX,
                None => self.spec_volume_cuft(default_volume_equation()) is None,
            },
    {
        self.volume_cuft_with(&VolumeEquation::default())
    }

    /// Cubic foot volume with custom coefficients.
    pub fn volume_cuft_with(&self, eq: &VolumeEquation) -> (r: Option<u64>)
        requires
            self.bounded(),
            eq.valid(),
        ensures
            match r {
                Some(v) => self.spec_volume_cuft(*eq) == Some(v as int) && v <= VOL_TREE_MAX,
                None => self.spec_volume_cuft(*eq) is None,
            },
    {
        let h = match self.height {
            None => { return None },
            Some(h) => h,
        };
        proof {
            lemma_mul_le(eq.cuft_b1 as int, self.dbh as int, COEF_MICRO_MAX as int, DBH_MICRO_MAX as int);
            lemma_mul_le(
                (eq.cuft_b1 as int) * (self.dbh as int),
                self.dbh as int,
                (COEF_MICRO_MAX as int) * (DBH_MICRO_MAX as int),
                DBH_MICRO_MAX as int,
            );
            lemma_mul_le(
                (eq.cuft_b1 as int) * (self.dbh as int) * (self.dbh as int),
                h as int,
                (COEF_MICRO_MAX as int) * (DBH_MICRO_MAX as int) * (DBH_MICRO_MAX as int),
                HEIGHT_MICRO_MAX as int,
            );
            lemma_div_le(
                (eq.cuft_b1 as int) * (self.dbh as int) * (self.dbh as int) * (h as int),
                E18 as int,
                VOL_TREE_MAX as int,
            );
        }
        let gross: u128 = (eq.cuft_b1 as u128) * (self.dbh as u128) * (self.dbh as u128) * (
        h as u128) / E18;
        let gross64: u64 = gross as u64;
        let factor: u64 = MICRO - self.defect_or_zero();
        proof {
            lemma_mul_le(gross64 as int, factor as int, VOL_TREE_MAX as int, MICRO as int);
            lemma_div_le((gross64 as int) * (factor as int), MICRO as int, VOL_TREE_MAX as int);
        }
        Some(mul_div(gross64, factor, MICRO))
    }

    /// Board foot volume with the default equation.
    pub fn volume_bdft(&self) -> (r: Option<u64>)
        requires
            self.bounded(),
        ensures
            match r {
                Some(v) => self.spec_volume_bdft(default_volume_equation()) == Some(v as int) && v
                    <= VOL_TREE_MAX,
                None => self.spec_volume_bdft(default_volume_equation()) is None,
            },
    {
        self.volume_bdft_with(&VolumeEquation::default())
    }

    /// Board foot volume with custom coefficients.
    pub fn volume_bdft_with(&self, eq: &VolumeEquation) -> (r: Option<u64>)
        requires
            self.bounded(),
            eq.valid(),
        ensures
            match r {
                Some(v) => self.spec_volume_bdft(*eq) == Some(v as int) && v <= VOL_TREE_MAX,
                None => self.spec_volume_bdft(*eq) is None,
            },
    {
        let h = match self.height {
            None => { return None },
            Some(h) => h,
        };
        if self.dbh < eq.bdft_min_dbh {
            return Some(0);
        }
        proof {
            lemma_mul_le(eq.bdft_b1 as int, self.dbh as int, COEF_MICRO_MAX as int, DBH_MICRO_MAX as int);
            lemma_mul_le(
                (eq.bdft_b1 as int) * (self.dbh as int),
                self.dbh as int,
                (COEF_MICRO_MAX as int) * (DBH_MICRO_MAX as int),
                DBH_MICRO_MAX as int,
            );
            lemma_mul_le(
                (eq.bdft_b1 as int) * (self.dbh as int) * (self.dbh as int),
                h as int,
                (COEF_MICRO_MAX as int) * (DBH_MICRO_MAX as int) * (DBH_MICRO_MAX as int),
                HEIGHT_MICRO_MAX as int,
            );
            lemma_div_le(
                (eq.bdft_b1 as int) * (self.dbh as int) * (self.dbh as int) * (h as int),
                E18 as int,
                VOL_TREE_MAX as int,
            );
            lemma_mul_le(eq.bdft_b2 as int, self.dbh as int, B2_MICRO_MAX as int, DBH_MICRO_MAX as int);
            lemma_div_le((eq.bdft_b2 as int) * (self.dbh as int), MICRO as int, VOL_TREE_MAX as int);
        }
        let gross: u128 = (eq.bdft_b1 as u128) * (self.dbh as u128) * (self.dbh as u128) * (
        h as u128) / E18;
        let gross64: u64 = gross as u64;
        let sub: u64 = mul_div(eq.bdft_b2, self.dbh, MICRO);
        let net: u64 = if gross64 >= sub {
            gross64 - sub
        } else {
            0
        };
        let factor: u64 = MICRO - self.defect_or_zero();
        proof {
            lemma_mul_le(net as int, factor as int, VOL_TREE_MAX as int, MICRO as int);
            lemma_div_le((net as int) * (factor as int), MICRO as int, VOL_TREE_MAX as int);
        }
        Some(mul_div(net, factor, MICRO))
    }

    /// The defect fraction, zero when not recorded.
    pub fn defect_or_zero(&self) -> (r: u64)
        requires
            self.bounded(),
        ensures
            r == self.spec_defect(),
            r <= MICRO,
    {
        match self.defect {
            Some(d) => d,
            None => 0,
        }
    }

    /// Whether the tree is alive.
    pub fn is_live(&self) -> (r: bool)
        ensures
            r == (self.status is Live),
    {
        self.status == TreeStatus::Live
    }

    /// An exact copy, with the fields known to be preserved.
    pub fn duplicate(&self) -> (r: Tree)
        ensures
            r == *self,
    {
        Tree {
            tree_id: self.tree_id,
            plot_id: self.plot_id,
            species: self.species.duplicate(),
            dbh: self.dbh,
            height: self.height,
            crown_ratio: self.crown_ratio,
            status: self.status,
            expansion_factor: self.expansion_factor,
            age: self.age,
            defect: self.defect,
        }
    }

    /// Validate the measurements, exactly when `valid` holds.
    pub fn validate(&self) -> (r: Result<(), ForestError>)
        ensures
            r is Ok <==> self.valid(),
            r matches Err(e) ==> e is ValidationError,
    {
        if self.dbh < 1 || self.dbh > DBH_MICRO_MAX {
            return Err(
                ForestError::ValidationError(String::from_str("DBH must be positive")),
            );
        }
        if let Some(h) = self.height {
            if h < 1 || h > HEIGHT_MICRO_MAX {
                return Err(
                    ForestError::ValidationError(String::from_str("height must be positive")),
                );
            }
        }
        if let Some(cr) = self.crown_ratio {
            if cr > MICRO {
                return Err(
                    ForestError::ValidationError(
                        String::from_str("crown_ratio must be in 0.0..=1.0"),
                    ),
                );
            }
        }
        if self.expansion_factor < 1 || self.expansion_factor > EF_MICRO_MAX {
            return Err(
                ForestError::ValidationError(
                    String::from_str("expansion_factor must be positive"),
                ),
            );
        }
        if let Some(d) = self.defect {
            if d > MICRO {
                return Err(
                    ForestError::ValidationError(String::from_str("defect must be in 0.0..=1.0")),
                );
            }
        }
        Ok(())
    }
}

} // verus!
