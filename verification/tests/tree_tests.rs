use forest_inventory_analyzer::{Species, Tree, TreeStatus, VolumeEquation};

fn micro(x: f64) -> u64 {
    (x * 1e6).round() as u64
}

fn units(x: u64) -> f64 {
    x as f64 / 1e6
}

fn make_tree(dbh: f64, height: Option<f64>, status: TreeStatus, ef: f64) -> Tree {
    Tree {
        tree_id: 1,
        plot_id: 1,
        species: Species {
            common_name: "Douglas Fir".to_string(),
            code: "DF".to_string(),
        },
        dbh: micro(dbh),
        height: height.map(micro),
        crown_ratio: Some(micro(0.5)),
        status,
        expansion_factor: micro(ef),
        age: Some(60),
        defect: None,
    }
}

#[test]
fn test_basal_area_12_inch_tree() {
    let tree = make_tree(12.0, Some(80.0), TreeStatus::Live, 5.0);
    let ba = units(tree.basal_area_sqft());
    assert!((ba - 0.7854).abs() < 0.001);
}

#[test]
fn test_basal_area_zero_dbh() {
    let tree = make_tree(0.0, Some(80.0), TreeStatus::Live, 5.0);
    assert_eq!(tree.basal_area_sqft(), 0);
}

#[test]
fn tree_test_basal_area_per_acre() {
    let tree = make_tree(12.0, Some(80.0), TreeStatus::Live, 5.0);
    let ba = units(tree.basal_area_sqft());
    let ba_per_acre = units(tree.basal_area_per_acre());
    assert!((ba_per_acre - ba * 5.0).abs() < 0.0001);
}

#[test]
fn test_basal_area_large_tree() {
    let tree = make_tree(36.0, Some(150.0), TreeStatus::Live, 3.0);
    let ba = units(tree.basal_area_sqft());
    assert!((ba - 7.069).abs() < 0.01);
}

#[test]
fn test_basal_area_small_tree() {
    let tree = make_tree(1.0, Some(15.0), TreeStatus::Live, 20.0);
    let ba = units(tree.basal_area_sqft());
    assert!((ba - 0.00545).abs() < 0.001);
}

#[test]
fn test_volume_cuft_normal_tree() {
    let tree = make_tree(16.0, Some(100.0), TreeStatus::Live, 5.0);
    let vol = units(tree.volume_cuft().unwrap());
    assert!((vol - 62.82).abs() < 0.1);
}

#[test]
fn test_volume_cuft_no_height() {
    let tree = make_tree(16.0, None, TreeStatus::Live, 5.0);
    assert!(tree.volume_cuft().is_none());
}

#[test]
fn test_volume_cuft_zero_dbh() {
    let tree = make_tree(0.0, Some(100.0), TreeStatus::Live, 5.0);
    assert_eq!(tree.volume_cuft().unwrap(), 0);
}

#[test]
fn test_volume_cuft_zero_height() {
    let tree = make_tree(16.0, Some(0.0), TreeStatus::Live, 5.0);
    assert_eq!(tree.volume_cuft().unwrap(), 0);
}

#[test]
fn test_volume_cuft_with_defect() {
    let mut tree = make_tree(16.0, Some(100.0), TreeStatus::Live, 5.0);
    tree.defect = Some(micro(0.10));
    let vol = units(tree.volume_cuft().unwrap());
    let gross = 0.002454 * 256.0 * 100.0;
    let expected = gross * 0.90;
    assert!((vol - expected).abs() < 0.1);
}

#[test]
fn test_volume_bdft_normal_tree() {
    let tree = make_tree(16.0, Some(100.0), TreeStatus::Live, 5.0);
    let vol = tree.volume_bdft().unwrap();
    assert!(vol > 0);
}

#[test]
fn test_volume_bdft_small_tree_below_merchantable() {
    let tree = make_tree(5.0, Some(50.0), TreeStatus::Live, 10.0);
    assert_eq!(tree.volume_bdft().unwrap(), 0);
}

#[test]
fn test_volume_bdft_no_height() {
    let tree = make_tree(16.0, None, TreeStatus::Live, 5.0);
    assert!(tree.volume_bdft().is_none());
}

#[test]
fn test_volume_bdft_with_defect() {
    let mut tree = make_tree(16.0, Some(100.0), TreeStatus::Live, 5.0);
    let vol_no_defect = units(tree.volume_bdft().unwrap());
    tree.defect = Some(micro(0.20));
    let vol_with_defect = units(tree.volume_bdft().unwrap());
    assert!((vol_with_defect - vol_no_defect * 0.80).abs() < 0.1);
}

#[test]
fn test_volume_bdft_negative_clamped_to_zero() {
    let tree = make_tree(6.0, Some(1.0), TreeStatus::Live, 5.0);
    let _vol = tree.volume_bdft().unwrap();
}

#[test]
fn test_is_live() {
    assert!(make_tree(12.0, Some(80.0), TreeStatus::Live, 5.0).is_live());
    assert!(!make_tree(12.0, Some(80.0), TreeStatus::Dead, 5.0).is_live());
    assert!(!make_tree(12.0, Some(80.0), TreeStatus::Cut, 5.0).is_live());
    assert!(!make_tree(12.0, Some(80.0), TreeStatus::Missing, 5.0).is_live());
}

#[test]
fn test_validate_valid_tree() {
    let tree = make_tree(12.0, Some(80.0), TreeStatus::Live, 5.0);
    assert!(tree.validate().is_ok());
}

#[test]
fn test_validate_valid_tree_no_optionals() {
    let mut tree = make_tree(12.0, None, TreeStatus::Live, 5.0);
    tree.crown_ratio = None;
    tree.defect = None;
    assert!(tree.validate().is_ok());
}

#[test]
fn test_validate_zero_dbh() {
    let tree = make_tree(0.0, Some(80.0), TreeStatus::Live, 5.0);
    let err = tree.validate().unwrap_err();
    assert!(err.message().contains("DBH must be positive"));
}

#[test]
fn test_validate_zero_height() {
    let tree = make_tree(12.0, Some(0.0), TreeStatus::Live, 5.0);
    let err = tree.validate().unwrap_err();
    assert!(err.message().contains("height must be positive"));
}

#[test]
fn test_validate_crown_ratio_above_one() {
    let mut tree = make_tree(12.0, Some(80.0), TreeStatus::Live, 5.0);
    tree.crown_ratio = Some(micro(1.5));
    let err = tree.validate().unwrap_err();
    assert!(err.message().contains("crown_ratio must be in 0.0..=1.0"));
}

#[test]
fn test_validate_crown_ratio_boundary_values() {
    let mut tree = make_tree(12.0, Some(80.0), TreeStatus::Live, 5.0);
    tree.crown_ratio = Some(0);
    assert!(tree.validate().is_ok());
    tree.crown_ratio = Some(micro(1.0));
    assert!(tree.validate().is_ok());
}

#[test]
fn test_validate_zero_expansion_factor() {
    let tree = make_tree(12.0, Some(80.0), TreeStatus::Live, 0.0);
    let err = tree.validate().unwrap_err();
    assert!(err.message().contains("expansion_factor must be positive"));
}

#[test]
fn test_validate_defect_above_one() {
    let mut tree = make_tree(12.0, Some(80.0), TreeStatus::Live, 5.0);
    tree.defect = Some(micro(1.1));
    let err = tree.validate().unwrap_err();
    assert!(err.message().contains("defect must be in 0.0..=1.0"));
}

#[test]
fn test_validate_defect_boundary_values() {
    let mut tree = make_tree(12.0, Some(80.0), TreeStatus::Live, 5.0);
    tree.defect = Some(0);
    assert!(tree.validate().is_ok());
    tree.defect = Some(micro(1.0));
    assert!(tree.validate().is_ok());
}

#[test]
fn test_volume_cuft_with_default_matches_original() {
    let tree = make_tree(16.0, Some(100.0), TreeStatus::Live, 5.0);
    let default_eq = VolumeEquation::default();
    assert_eq!(tree.volume_cuft(), tree.volume_cuft_with(&default_eq));
}

#[test]
fn test_volume_bdft_with_default_matches_original() {
    let tree = make_tree(16.0, Some(100.0), TreeStatus::Live, 5.0);
    let default_eq = VolumeEquation::default();
    assert_eq!(tree.volume_bdft(), tree.volume_bdft_with(&default_eq));
}

#[test]
fn test_volume_cuft_with_custom_coefficients() {
    let tree = make_tree(16.0, Some(100.0), TreeStatus::Live, 5.0);
    let eq = VolumeEquation {
        cuft_b1: micro(0.003),
        ..VolumeEquation::default()
    };
    let vol = units(tree.volume_cuft_with(&eq).unwrap());
    assert!((vol - 76.8).abs() < 0.1);
}

#[test]
fn test_volume_bdft_with_custom_coefficients() {
    let tree = make_tree(16.0, Some(100.0), TreeStatus::Live, 5.0);
    let eq = VolumeEquation {
        bdft_b1: micro(0.015),
        bdft_b2: micro(5.0),
        bdft_min_dbh: micro(6.0),
        ..VolumeEquation::default()
    };
    let vol = units(tree.volume_bdft_with(&eq).unwrap());
    assert!((vol - 304.0).abs() < 0.1);
}

#[test]
fn test_volume_bdft_with_custom_min_dbh() {
    let tree = make_tree(8.0, Some(60.0), TreeStatus::Live, 5.0);
    assert!(tree.volume_bdft().unwrap() > 0);
    let eq = VolumeEquation {
        bdft_min_dbh: micro(10.0),
        ..VolumeEquation::default()
    };
    assert_eq!(tree.volume_bdft_with(&eq).unwrap(), 0);
}

#[test]
fn test_default_cuft_coefficient() {
    let eq = VolumeEquation::default();
    assert_eq!(eq.cuft_b1, 2454);
}

#[test]
fn test_default_bdft_coefficients() {
    let eq = VolumeEquation::default();
    assert_eq!(eq.bdft_b1, 11590);
    assert_eq!(eq.bdft_b2, 4_000_000);
    assert_eq!(eq.bdft_min_dbh, 6_000_000);
}
