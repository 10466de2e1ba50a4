use forest_inventory_analyzer::{
    compute_ci, ForestInventory, Plot, SamplingStatistics, Species, Tree, TreeStatus,
};
use statrs::distribution::{ContinuousCDF, StudentsT};

fn micro(x: f64) -> u64 {
    (x * 1e6).round() as u64
}

fn units(x: u64) -> f64 {
    x as f64 / 1e6
}

fn t_critical(confidence: f64, n: usize) -> u64 {
    let df = (n - 1) as f64;
    let alpha = 1.0 - confidence;
    let dist = StudentsT::new(0.0, 1.0, df).unwrap();
    micro(dist.inverse_cdf(1.0 - alpha / 2.0))
}

fn make_plot(plot_id: u32, trees: Vec<Tree>) -> Plot {
    Plot {
        plot_id,
        plot_size_acres: micro(0.2),
        slope_percent: None,
        aspect_degrees: None,
        elevation_ft: None,
        trees,
    }
}

fn make_tree_with_ef(plot_id: u32, dbh: f64, ef: f64) -> Tree {
    Tree {
        tree_id: 1,
        plot_id,
        species: Species {
            common_name: "Douglas Fir".to_string(),
            code: "DF".to_string(),
        },
        dbh: micro(dbh),
        height: Some(micro(80.0)),
        crown_ratio: Some(micro(0.5)),
        status: TreeStatus::Live,
        expansion_factor: micro(ef),
        age: None,
        defect: None,
    }
}

fn sample_inventory(num_plots: u32) -> ForestInventory {
    let mut inv = ForestInventory::new("Stats Test");
    for i in 1..=num_plots {
        let ef = 4.0 + i as f64;
        inv.plots.push(make_plot(
            i,
            vec![
                make_tree_with_ef(i, 12.0 + i as f64, ef),
                make_tree_with_ef(i, 14.0 + i as f64, ef),
            ],
        ));
    }
    inv
}

fn micro_values(vals: &[f64]) -> Vec<u64> {
    vals.iter().map(|v| micro(*v)).collect()
}

#[test]
fn test_compute_ci_basic() {
    let values = micro_values(&[10.0, 12.0, 11.0, 13.0, 9.0]);
    let ci = compute_ci(&values, micro(0.95), t_critical(0.95, 5)).unwrap();
    assert!((units(ci.mean) - 11.0).abs() < 0.001);
    assert!(ci.lower < ci.mean as i128);
    assert!(ci.upper > ci.mean as u128);
    assert_eq!(ci.sample_size, 5);
    assert_eq!(ci.confidence_level, micro(0.95));
}

#[test]
fn test_compute_ci_symmetric() {
    let values = micro_values(&[10.0, 12.0, 11.0, 13.0, 9.0]);
    let ci = compute_ci(&values, micro(0.95), t_critical(0.95, 5)).unwrap();
    let lower_margin = ci.mean as i128 - ci.lower;
    let upper_margin = (ci.upper - ci.mean as u128) as i128;
    assert_eq!(lower_margin, upper_margin);
}

#[test]
fn test_compute_ci_two_observations() {
    let values = micro_values(&[10.0, 20.0]);
    let ci = compute_ci(&values, micro(0.95), t_critical(0.95, 2)).unwrap();
    assert!((units(ci.mean) - 15.0).abs() < 0.001);
    assert_eq!(ci.sample_size, 2);
    assert!(ci.upper as i128 - ci.lower > micro(10.0) as i128);
}

#[test]
fn test_compute_ci_insufficient_data() {
    let values = micro_values(&[10.0]);
    assert!(compute_ci(&values, micro(0.95), micro(2.0)).is_err());
}

#[test]
fn test_compute_ci_empty() {
    let values: Vec<u64> = vec![];
    assert!(compute_ci(&values, micro(0.95), micro(2.0)).is_err());
}

#[test]
fn test_compute_ci_identical_values() {
    let values = micro_values(&[10.0, 10.0, 10.0, 10.0]);
    let ci = compute_ci(&values, micro(0.95), t_critical(0.95, 4)).unwrap();
    assert!((units(ci.mean) - 10.0).abs() < 0.001);
    assert_eq!(ci.std_error, 0);
    assert_eq!(ci.lower, micro(10.0) as i128);
    assert_eq!(ci.upper, micro(10.0) as u128);
}

#[test]
fn test_compute_ci_higher_confidence_wider() {
    let values = micro_values(&[10.0, 12.0, 11.0, 13.0, 9.0]);
    let ci_90 = compute_ci(&values, micro(0.90), t_critical(0.90, 5)).unwrap();
    let ci_95 = compute_ci(&values, micro(0.95), t_critical(0.95, 5)).unwrap();
    let ci_99 = compute_ci(&values, micro(0.99), t_critical(0.99, 5)).unwrap();
    let width_90 = ci_90.upper as i128 - ci_90.lower;
    let width_95 = ci_95.upper as i128 - ci_95.lower;
    let width_99 = ci_99.upper as i128 - ci_99.lower;
    assert!(width_95 > width_90);
    assert!(width_99 > width_95);
}

#[test]
fn test_compute_ci_more_data_narrower() {
    let small = micro_values(&[10.0, 12.0, 11.0]);
    let large = micro_values(&[10.0, 12.0, 11.0, 10.5, 11.5, 10.8, 11.2, 11.0, 10.3, 11.7]);
    let ci_small = compute_ci(&small, micro(0.95), t_critical(0.95, 3)).unwrap();
    let ci_large = compute_ci(&large, micro(0.95), t_critical(0.95, 10)).unwrap();
    let width_small = ci_small.upper as i128 - ci_small.lower;
    let width_large = ci_large.upper as i128 - ci_large.lower;
    assert!(width_large < width_small);
}

#[test]
fn test_sampling_error_percent() {
    let values = micro_values(&[10.0, 12.0, 11.0, 13.0, 9.0]);
    let ci = compute_ci(&values, micro(0.95), t_critical(0.95, 5)).unwrap();
    let margin = (ci.upper - ci.mean as u128) as f64 / 1e6;
    let expected_pct = (margin / units(ci.mean)) * 100.0;
    let got_pct = ci.sampling_error_percent as f64 / 1e6;
    assert!((got_pct - expected_pct).abs() < 0.01);
}

#[test]
fn test_sampling_error_percent_zero_mean() {
    let values = micro_values(&[0.0, 0.0, 0.0, 0.0]);
    let ci = compute_ci(&values, micro(0.95), t_critical(0.95, 4)).unwrap();
    assert_eq!(ci.sampling_error_percent, 0);
}

#[test]
fn test_sampling_statistics_compute() {
    let inv = sample_inventory(5);
    let stats = SamplingStatistics::compute(&inv, micro(0.95), t_critical(0.95, 5)).unwrap();
    assert!(stats.tpa.mean > 0);
    assert!(stats.basal_area.mean > 0);
    assert!(stats.volume_cuft.mean > 0);
    assert!(stats.volume_bdft.mean > 0);
    assert_eq!(stats.tpa.sample_size, 5);
}

#[test]
fn test_sampling_statistics_insufficient_plots() {
    let inv = sample_inventory(1);
    assert!(SamplingStatistics::compute(&inv, micro(0.95), micro(2.0)).is_err());
}

#[test]
fn test_sampling_statistics_empty_inventory() {
    let inv = ForestInventory::new("Empty");
    assert!(SamplingStatistics::compute(&inv, micro(0.95), micro(2.0)).is_err());
}

#[test]
fn test_sampling_statistics_two_plots() {
    let inv = sample_inventory(2);
    let stats = SamplingStatistics::compute(&inv, micro(0.95), t_critical(0.95, 2)).unwrap();
    assert_eq!(stats.tpa.sample_size, 2);
    assert!(stats.tpa.upper as i128 - stats.tpa.lower > 0);
}

#[test]
fn test_sampling_statistics_confidence_levels() {
    let inv = sample_inventory(5);
    let stats_90 = SamplingStatistics::compute(&inv, micro(0.90), t_critical(0.90, 5)).unwrap();
    let stats_95 = SamplingStatistics::compute(&inv, micro(0.95), t_critical(0.95, 5)).unwrap();
    let width_90 = stats_90.tpa.upper as i128 - stats_90.tpa.lower;
    let width_95 = stats_95.tpa.upper as i128 - stats_95.tpa.lower;
    assert!(width_95 > width_90);
}
