use forest_inventory_analyzer::{Plot, Species, Tree, TreeStatus};

fn micro(x: f64) -> u64 {
    (x * 1e6).round() as u64
}

fn units(x: u64) -> f64 {
    x as f64 / 1e6
}

fn make_tree(tree_id: u32, dbh: f64, height: Option<f64>, status: TreeStatus, ef: f64) -> Tree {
    Tree {
        tree_id,
        plot_id: 1,
        species: Species {
            common_name: "Douglas Fir".to_string(),
            code: "DF".to_string(),
        },
        dbh: micro(dbh),
        height: height.map(micro),
        crown_ratio: Some(micro(0.5)),
        status,
        expansion_factor: micro(ef),
        age: None,
        defect: None,
    }
}

fn make_plot(trees: Vec<Tree>) -> Plot {
    Plot {
        plot_id: 1,
        plot_size_acres: micro(0.2),
        slope_percent: Some(micro(15.0)),
        aspect_degrees: Some(micro(180.0)),
        elevation_ft: Some(micro(3000.0)),
        trees,
    }
}

#[test]
fn test_live_trees_filters_correctly() {
    let plot = make_plot(vec![
        make_tree(1, 12.0, Some(80.0), TreeStatus::Live, 5.0),
        make_tree(2, 10.0, Some(60.0), TreeStatus::Dead, 5.0),
        make_tree(3, 14.0, Some(90.0), TreeStatus::Live, 5.0),
        make_tree(4, 8.0, Some(40.0), TreeStatus::Cut, 5.0),
    ]);
    let live = plot.live_trees();
    assert_eq!(live.len(), 2);
    assert_eq!(live[0].tree_id, 1);
    assert_eq!(live[1].tree_id, 3);
}

#[test]
fn test_live_trees_empty_plot() {
    let plot = make_plot(vec![]);
    assert!(plot.live_trees().is_empty());
}

#[test]
fn test_live_trees_all_dead() {
    let plot = make_plot(vec![
        make_tree(1, 12.0, Some(80.0), TreeStatus::Dead, 5.0),
        make_tree(2, 10.0, Some(60.0), TreeStatus::Dead, 5.0),
    ]);
    assert!(plot.live_trees().is_empty());
}

#[test]
fn test_trees_per_acre() {
    let plot = make_plot(vec![
        make_tree(1, 12.0, Some(80.0), TreeStatus::Live, 5.0),
        make_tree(2, 10.0, Some(60.0), TreeStatus::Live, 3.0),
        make_tree(3, 8.0, Some(40.0), TreeStatus::Dead, 5.0),
    ]);
    assert!((units(plot.trees_per_acre()) - 8.0).abs() < 0.001);
}

#[test]
fn test_trees_per_acre_empty() {
    let plot = make_plot(vec![]);
    assert_eq!(plot.trees_per_acre(), 0);
}

#[test]
fn plot_test_basal_area_per_acre() {
    let plot = make_plot(vec![make_tree(1, 12.0, Some(80.0), TreeStatus::Live, 5.0)]);
    let expected_ba = std::f64::consts::PI * 36.0 / 144.0 * 5.0;
    assert!((units(plot.basal_area_per_acre()) - expected_ba).abs() < 0.001);
}

#[test]
fn test_basal_area_excludes_dead() {
    let plot = make_plot(vec![
        make_tree(1, 12.0, Some(80.0), TreeStatus::Live, 5.0),
        make_tree(2, 20.0, Some(100.0), TreeStatus::Dead, 5.0),
    ]);
    let expected_ba = std::f64::consts::PI * 36.0 / 144.0 * 5.0;
    assert!((units(plot.basal_area_per_acre()) - expected_ba).abs() < 0.001);
}

#[test]
fn test_volume_cuft_per_acre() {
    let plot = make_plot(vec![make_tree(1, 16.0, Some(100.0), TreeStatus::Live, 5.0)]);
    let vol = units(plot.volume_cuft_per_acre());
    assert!((vol - 314.1).abs() < 1.0);
}

#[test]
fn test_volume_cuft_per_acre_no_height() {
    let plot = make_plot(vec![make_tree(1, 16.0, None, TreeStatus::Live, 5.0)]);
    assert_eq!(plot.volume_cuft_per_acre(), 0);
}

#[test]
fn test_volume_bdft_per_acre() {
    let plot = make_plot(vec![make_tree(1, 16.0, Some(100.0), TreeStatus::Live, 5.0)]);
    assert!(plot.volume_bdft_per_acre() > 0);
}

#[test]
fn test_volume_bdft_small_trees_zero() {
    let plot = make_plot(vec![make_tree(1, 4.0, Some(30.0), TreeStatus::Live, 10.0)]);
    assert_eq!(plot.volume_bdft_per_acre(), 0);
}

#[test]
fn test_quadratic_mean_diameter() {
    let plot = make_plot(vec![
        make_tree(1, 12.0, Some(80.0), TreeStatus::Live, 5.0),
        make_tree(2, 12.0, Some(85.0), TreeStatus::Live, 5.0),
    ]);
    assert!((units(plot.quadratic_mean_diameter()) - 12.0).abs() < 0.001);
}

#[test]
fn test_quadratic_mean_diameter_different_sizes() {
    let plot = make_plot(vec![
        make_tree(1, 10.0, Some(70.0), TreeStatus::Live, 5.0),
        make_tree(2, 14.0, Some(90.0), TreeStatus::Live, 5.0),
    ]);
    let expected = ((100.0 + 196.0) / 2.0_f64).sqrt();
    assert!((units(plot.quadratic_mean_diameter()) - expected).abs() < 0.01);
}

#[test]
fn test_quadratic_mean_diameter_empty() {
    let plot = make_plot(vec![]);
    assert_eq!(plot.quadratic_mean_diameter(), 0);
}

#[test]
fn test_quadratic_mean_diameter_excludes_dead() {
    let plot = make_plot(vec![
        make_tree(1, 12.0, Some(80.0), TreeStatus::Live, 5.0),
        make_tree(2, 24.0, Some(120.0), TreeStatus::Dead, 5.0),
    ]);
    assert!((units(plot.quadratic_mean_diameter()) - 12.0).abs() < 0.001);
}

#[test]
fn test_multiple_metrics_consistent() {
    let plot = make_plot(vec![
        make_tree(1, 16.0, Some(100.0), TreeStatus::Live, 5.0),
        make_tree(2, 12.0, Some(80.0), TreeStatus::Live, 3.0),
        make_tree(3, 20.0, Some(110.0), TreeStatus::Dead, 5.0),
    ]);
    assert_eq!(plot.live_trees().len(), 2);
    assert!((units(plot.trees_per_acre()) - 8.0).abs() < 0.001);
    assert!(plot.basal_area_per_acre() > 0);
    assert!(plot.volume_cuft_per_acre() > 0);
    assert!(plot.volume_bdft_per_acre() > 0);
    assert!(units(plot.quadratic_mean_diameter()) > 12.0);
}
