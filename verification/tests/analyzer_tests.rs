use forest_inventory_analyzer::{
    compute_stand_metrics, project_growth, sanitize_filename, unix_now, Analyzer,
    DiameterDistribution, ForestInventory, GrowthModel, Plot, SamplingStatistics, Species, Tree,
    TreeStatus,
};
use statrs::distribution::{ContinuousCDF, StudentsT};

fn micro(x: f64) -> u64 {
    (x * 1e6).round() as u64
}

fn t_critical(confidence: f64, n: usize) -> u64 {
    let df = (n - 1) as f64;
    let alpha = 1.0 - confidence;
    let dist = StudentsT::new(0.0, 1.0, df).unwrap();
    micro(dist.inverse_cdf(1.0 - alpha / 2.0))
}

fn make_tree(plot_id: u32, dbh: f64) -> Tree {
    Tree {
        tree_id: 1,
        plot_id,
        species: Species {
            common_name: "Douglas Fir".to_string(),
            code: "DF".to_string(),
        },
        dbh: micro(dbh),
        height: Some(micro(100.0)),
        crown_ratio: Some(micro(0.5)),
        status: TreeStatus::Live,
        expansion_factor: micro(5.0),
        age: None,
        defect: None,
    }
}

fn make_plot(plot_id: u32, trees: Vec<Tree>) -> Plot {
    Plot {
        plot_id,
        plot_size_acres: micro(0.2),
        slope_percent: None,
        aspect_degrees: None,
        elevation_ft: None,
        trees,
    }
}

fn sample_inventory() -> ForestInventory {
    let mut inv = ForestInventory::new("Analyzer Test");
    inv.plots
        .push(make_plot(1, vec![make_tree(1, 14.0), make_tree(1, 16.0)]));
    inv.plots
        .push(make_plot(2, vec![make_tree(2, 12.0), make_tree(2, 18.0)]));
    inv
}

#[test]
fn test_stand_metrics_matches_standalone() {
    let inv = sample_inventory();
    let analyzer = Analyzer::new(&inv);
    let from_analyzer = analyzer.stand_metrics();
    let from_standalone = compute_stand_metrics(&inv);
    assert_eq!(from_analyzer.total_tpa, from_standalone.total_tpa);
    assert_eq!(from_analyzer.total_basal_area, from_standalone.total_basal_area);
    assert_eq!(
        from_analyzer.quadratic_mean_diameter,
        from_standalone.quadratic_mean_diameter
    );
}

#[test]
fn test_sampling_statistics_matches_standalone() {
    let inv = sample_inventory();
    let analyzer = Analyzer::new(&inv);
    let t = t_critical(0.95, 2);
    let from_analyzer = analyzer.sampling_statistics(micro(0.95), t).unwrap();
    let from_standalone = SamplingStatistics::compute(&inv, micro(0.95), t).unwrap();
    assert_eq!(from_analyzer.tpa.mean, from_standalone.tpa.mean);
    assert_eq!(from_analyzer.basal_area.mean, from_standalone.basal_area.mean);
}

#[test]
fn test_diameter_distribution_matches_standalone() {
    let inv = sample_inventory();
    let analyzer = Analyzer::new(&inv);
    let from_analyzer = analyzer.diameter_distribution(micro(2.0));
    let from_standalone = DiameterDistribution::from_inventory(&inv, micro(2.0));
    assert_eq!(from_analyzer.classes.len(), from_standalone.classes.len());
    assert_eq!(from_analyzer.class_width, from_standalone.class_width);
}

#[test]
fn test_project_growth_matches_standalone() {
    let inv = sample_inventory();
    let analyzer = Analyzer::new(&inv);
    let model = GrowthModel::Exponential {
        annual_rate: micro(0.03),
        mortality_rate: micro(0.005),
    };
    let from_analyzer = analyzer.project_growth(&model, 10).unwrap();
    let from_standalone = project_growth(&inv, &model, 10).unwrap();
    assert_eq!(from_analyzer.len(), from_standalone.len());
    assert_eq!(from_analyzer[10].basal_area, from_standalone[10].basal_area);
}

#[test]
fn test_analyzer_empty_inventory() {
    let inv = ForestInventory::new("Empty");
    let analyzer = Analyzer::new(&inv);
    let metrics = analyzer.stand_metrics();
    assert_eq!(metrics.total_tpa, 0);
    assert!(analyzer.sampling_statistics(micro(0.95), micro(2.0)).is_err());
}

#[test]
fn test_sanitize_filename_behavior() {
    assert_eq!(sanitize_filename("report 2024.csv"), "report 2024.csv");
    assert_eq!(sanitize_filename("../../etc/passwd"), "etcpasswd");
    assert_eq!(sanitize_filename("a<b>c\"d.csv"), "abcd.csv");
    assert_eq!(sanitize_filename("..."), ".");
}

#[test]
fn test_unix_now_runs() {
    let a = unix_now();
    let b = unix_now();
    assert!(b >= a);
}
