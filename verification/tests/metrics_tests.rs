use forest_inventory_analyzer::{
    compute_stand_metrics, ForestInventory, Plot, Species, Tree, TreeStatus,
};

fn micro(x: f64) -> u64 {
    (x * 1e6).round() as u64
}

fn units(x: u64) -> f64 {
    x as f64 / 1e6
}

fn make_species(code: &str, name: &str) -> Species {
    Species {
        common_name: name.to_string(),
        code: code.to_string(),
    }
}

fn make_tree(plot_id: u32, species: Species, dbh: f64, height: Option<f64>, status: TreeStatus) -> Tree {
    Tree {
        tree_id: 1,
        plot_id,
        species,
        dbh: micro(dbh),
        height: height.map(micro),
        crown_ratio: Some(micro(0.5)),
        status,
        expansion_factor: micro(5.0),
        age: None,
        defect: None,
    }
}

fn make_plot(plot_id: u32, trees: Vec<Tree>) -> Plot {
    Plot {
        plot_id,
        plot_size_acres: micro(0.2),
        slope_percent: None,
        aspect_degrees: None,
        elevation_ft: None,
        trees,
    }
}

fn sample_inventory() -> ForestInventory {
    let df = make_species("DF", "Douglas Fir");
    let wrc = make_species("WRC", "Western Red Cedar");
    let mut inv = ForestInventory::new("Metrics Test");
    inv.plots.push(make_plot(
        1,
        vec![
            make_tree(1, df.clone(), 16.0, Some(100.0), TreeStatus::Live),
            make_tree(1, wrc.clone(), 12.0, Some(80.0), TreeStatus::Live),
            make_tree(1, df.clone(), 10.0, Some(50.0), TreeStatus::Dead),
        ],
    ));
    inv.plots.push(make_plot(
        2,
        vec![
            make_tree(2, df.clone(), 18.0, Some(110.0), TreeStatus::Live),
            make_tree(2, wrc.clone(), 14.0, Some(90.0), TreeStatus::Live),
        ],
    ));
    inv
}

#[test]
fn test_empty_inventory_metrics() {
    let inv = ForestInventory::new("Empty");
    let metrics = compute_stand_metrics(&inv);
    assert_eq!(metrics.total_tpa, 0);
    assert_eq!(metrics.total_basal_area, 0);
    assert_eq!(metrics.total_volume_cuft, 0);
    assert_eq!(metrics.total_volume_bdft, 0);
    assert_eq!(metrics.quadratic_mean_diameter, 0);
    assert!(metrics.mean_height.is_none());
    assert_eq!(metrics.num_species, 0);
    assert!(metrics.species_composition.is_empty());
}

#[test]
fn test_metrics_positive_values() {
    let inv = sample_inventory();
    let metrics = compute_stand_metrics(&inv);
    assert!(metrics.total_tpa > 0);
    assert!(metrics.total_basal_area > 0);
    assert!(metrics.total_volume_cuft > 0);
    assert!(metrics.total_volume_bdft > 0);
    assert!(metrics.quadratic_mean_diameter > 0);
}

#[test]
fn test_species_count() {
    let inv = sample_inventory();
    let metrics = compute_stand_metrics(&inv);
    assert_eq!(metrics.num_species, 2);
}

#[test]
fn test_species_composition_not_empty() {
    let inv = sample_inventory();
    let metrics = compute_stand_metrics(&inv);
    assert_eq!(metrics.species_composition.len(), 2);
}

#[test]
fn test_species_percentages_sum_to_100() {
    let inv = sample_inventory();
    let metrics = compute_stand_metrics(&inv);
    let tpa_pct_sum: f64 = metrics
        .species_composition
        .iter()
        .map(|s| units(s.percent_tpa))
        .sum();
    let ba_pct_sum: f64 = metrics
        .species_composition
        .iter()
        .map(|s| units(s.percent_basal_area))
        .sum();
    assert!((tpa_pct_sum - 100.0).abs() < 0.1);
    assert!((ba_pct_sum - 100.0).abs() < 0.1);
}

#[test]
fn test_species_sorted_by_basal_area_desc() {
    let inv = sample_inventory();
    let metrics = compute_stand_metrics(&inv);
    for i in 1..metrics.species_composition.len() {
        assert!(
            metrics.species_composition[i - 1].basal_area
                >= metrics.species_composition[i].basal_area
        );
    }
}

#[test]
fn test_mean_height_present() {
    let inv = sample_inventory();
    let metrics = compute_stand_metrics(&inv);
    assert!(metrics.mean_height.is_some());
}

#[test]
fn test_mean_height_none_when_no_heights() {
    let df = make_species("DF", "Douglas Fir");
    let mut inv = ForestInventory::new("No Heights");
    inv.plots
        .push(make_plot(1, vec![make_tree(1, df, 12.0, None, TreeStatus::Live)]));
    let metrics = compute_stand_metrics(&inv);
    assert!(metrics.mean_height.is_none());
}

#[test]
fn test_qmd_reasonable_range() {
    let inv = sample_inventory();
    let metrics = compute_stand_metrics(&inv);
    assert!(units(metrics.quadratic_mean_diameter) >= 12.0);
    assert!(units(metrics.quadratic_mean_diameter) <= 18.0);
}

#[test]
fn test_species_mean_dbh() {
    let inv = sample_inventory();
    let metrics = compute_stand_metrics(&inv);
    for sp in &metrics.species_composition {
        assert!(sp.mean_dbh > 0);
    }
}

#[test]
fn test_species_mean_height() {
    let inv = sample_inventory();
    let metrics = compute_stand_metrics(&inv);
    for sp in &metrics.species_composition {
        assert!(sp.mean_height.is_some());
        assert!(sp.mean_height.unwrap() > 0);
    }
}

#[test]
fn test_single_species_inventory() {
    let df = make_species("DF", "Douglas Fir");
    let mut inv = ForestInventory::new("Single Species");
    inv.plots.push(make_plot(
        1,
        vec![
            make_tree(1, df.clone(), 14.0, Some(90.0), TreeStatus::Live),
            make_tree(1, df.clone(), 16.0, Some(100.0), TreeStatus::Live),
        ],
    ));
    let metrics = compute_stand_metrics(&inv);
    assert_eq!(metrics.num_species, 1);
    assert!((units(metrics.species_composition[0].percent_tpa) - 100.0).abs() < 0.1);
    assert!((units(metrics.species_composition[0].percent_basal_area) - 100.0).abs() < 0.1);
}

#[test]
fn test_all_dead_trees_metrics() {
    let df = make_species("DF", "Douglas Fir");
    let mut inv = ForestInventory::new("All Dead");
    inv.plots.push(make_plot(
        1,
        vec![
            make_tree(1, df.clone(), 14.0, Some(90.0), TreeStatus::Dead),
            make_tree(1, df.clone(), 16.0, Some(100.0), TreeStatus::Dead),
        ],
    ));
    let metrics = compute_stand_metrics(&inv);
    assert_eq!(metrics.total_tpa, 0);
    assert_eq!(metrics.total_basal_area, 0);
    assert_eq!(metrics.num_species, 0);
}

#[test]
fn test_two_plot_douglas_fir_scenario() {
    let df = make_species("DF", "Douglas Fir");
    let mut inv = ForestInventory::new("Scenario");
    for plot_id in 1..=2 {
        let mut t12 = make_tree(plot_id, df.clone(), 12.0, Some(100.0), TreeStatus::Live);
        t12.tree_id = 1;
        let mut t16 = make_tree(plot_id, df.clone(), 16.0, Some(100.0), TreeStatus::Live);
        t16.tree_id = 2;
        inv.plots.push(make_plot(plot_id, vec![t12, t16]));
    }
    let metrics = compute_stand_metrics(&inv);
    assert!((units(metrics.total_tpa) - 10.0).abs() < 0.001);
    let expected_qmd = ((144.0 + 256.0) / 2.0_f64).sqrt();
    assert!((units(metrics.quadratic_mean_diameter) - expected_qmd).abs() < 0.01);
    assert_eq!(metrics.num_species, 1);
}

#[test]
fn test_species_order_with_distinct_basal_areas() {
    let big = make_species("BIG", "Big Tree");
    let small = make_species("SML", "Small Tree");
    let mut inv = ForestInventory::new("Ordering");
    inv.plots.push(make_plot(
        1,
        vec![
            make_tree(1, small.clone(), 8.0, Some(40.0), TreeStatus::Live),
            make_tree(1, big.clone(), 30.0, Some(150.0), TreeStatus::Live),
        ],
    ));
    let metrics = compute_stand_metrics(&inv);
    assert_eq!(metrics.species_composition[0].species.code, "BIG");
    assert_eq!(metrics.species_composition[1].species.code, "SML");
}
