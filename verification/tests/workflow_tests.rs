use forest_inventory_analyzer::{
    compute_stand_metrics, project_growth, DiameterDistribution, ForestInventory, GrowthModel,
    Plot, SamplingStatistics, Species, Tree, TreeStatus,
};
use statrs::distribution::{ContinuousCDF, StudentsT};

fn micro(x: f64) -> u64 {
    (x * 1e6).round() as u64
}

fn units(x: u64) -> f64 {
    x as f64 / 1e6
}

fn t_critical(confidence: f64, n: usize) -> u64 {
    let df = (n - 1) as f64;
    let alpha = 1.0 - confidence;
    let dist = StudentsT::new(0.0, 1.0, df).unwrap();
    micro(dist.inverse_cdf(1.0 - alpha / 2.0))
}

fn create_test_inventory() -> ForestInventory {
    let mut inventory = ForestInventory::new("Test Inventory");
    for plot_id in 1..=3u32 {
        let mut plot = Plot {
            plot_id,
            plot_size_acres: micro(0.2),
            slope_percent: Some(micro(20.0)),
            aspect_degrees: Some(micro(180.0)),
            elevation_ft: Some(micro(3000.0)),
            trees: Vec::new(),
        };
        let ef = 4.0 + plot_id as f64;
        plot.trees.push(Tree {
            tree_id: 1,
            plot_id,
            species: Species {
                common_name: "Douglas Fir".to_string(),
                code: "DF".to_string(),
            },
            dbh: micro(18.0 + plot_id as f64),
            height: Some(micro(100.0 + plot_id as f64 * 5.0)),
            crown_ratio: Some(micro(0.45)),
            status: TreeStatus::Live,
            expansion_factor: micro(ef),
            age: Some(80),
            defect: None,
        });
        plot.trees.push(Tree {
            tree_id: 2,
            plot_id,
            species: Species {
                common_name: "Western Red Cedar".to_string(),
                code: "WRC".to_string(),
            },
            dbh: micro(14.0 + plot_id as f64),
            height: Some(micro(85.0 + plot_id as f64 * 3.0)),
            crown_ratio: Some(micro(0.50)),
            status: TreeStatus::Live,
            expansion_factor: micro(ef),
            age: Some(90),
            defect: Some(micro(0.05)),
        });
        plot.trees.push(Tree {
            tree_id: 3,
            plot_id,
            species: Species {
                common_name: "Douglas Fir".to_string(),
                code: "DF".to_string(),
            },
            dbh: micro(8.0),
            height: Some(micro(50.0)),
            crown_ratio: Some(micro(0.65)),
            status: TreeStatus::Dead,
            expansion_factor: micro(5.0),
            age: None,
            defect: None,
        });
        inventory.plots.push(plot);
    }
    inventory
}

fn logistic_model() -> GrowthModel {
    GrowthModel::Logistic {
        annual_rate: micro(0.03),
        carrying_capacity: micro(300.0),
        mortality_rate: micro(0.005),
    }
}

#[test]
fn test_inventory_basic_stats() {
    let inventory = create_test_inventory();
    assert_eq!(inventory.num_plots(), 3);
    assert_eq!(inventory.num_trees(), 9);
    assert!(inventory.mean_tpa() > 0);
    assert!(inventory.mean_basal_area() > 0);
}

#[test]
fn test_tree_basal_area() {
    let tree = Tree {
        tree_id: 1,
        plot_id: 1,
        species: Species {
            common_name: "Douglas Fir".to_string(),
            code: "DF".to_string(),
        },
        dbh: micro(12.0),
        height: Some(micro(80.0)),
        crown_ratio: Some(micro(0.50)),
        status: TreeStatus::Live,
        expansion_factor: micro(5.0),
        age: Some(60),
        defect: None,
    };
    let ba = units(tree.basal_area_sqft());
    assert!((ba - 0.7854).abs() < 0.001);
}

#[test]
fn test_tree_volume() {
    let tree = Tree {
        tree_id: 1,
        plot_id: 1,
        species: Species {
            common_name: "Douglas Fir".to_string(),
            code: "DF".to_string(),
        },
        dbh: micro(16.0),
        height: Some(micro(100.0)),
        crown_ratio: Some(micro(0.45)),
        status: TreeStatus::Live,
        expansion_factor: micro(5.0),
        age: Some(75),
        defect: None,
    };
    assert!(tree.volume_cuft().unwrap() > 0);
    assert!(tree.volume_bdft().unwrap() > 0);
}

#[test]
fn test_stand_metrics() {
    let inventory = create_test_inventory();
    let metrics = compute_stand_metrics(&inventory);
    assert!(metrics.total_tpa > 0);
    assert!(metrics.total_basal_area > 0);
    assert!(metrics.num_species == 2);
    assert!(!metrics.species_composition.is_empty());
}

#[test]
fn test_stand_metrics_species_percentages() {
    let inventory = create_test_inventory();
    let metrics = compute_stand_metrics(&inventory);
    let tpa_sum: f64 = metrics
        .species_composition
        .iter()
        .map(|s| units(s.percent_tpa))
        .sum();
    let ba_sum: f64 = metrics
        .species_composition
        .iter()
        .map(|s| units(s.percent_basal_area))
        .sum();
    assert!((tpa_sum - 100.0).abs() < 0.1);
    assert!((ba_sum - 100.0).abs() < 0.1);
}

#[test]
fn test_stand_metrics_volumes_positive() {
    let inventory = create_test_inventory();
    let metrics = compute_stand_metrics(&inventory);
    assert!(metrics.total_volume_cuft > 0);
    assert!(metrics.total_volume_bdft > 0);
}

#[test]
fn test_stand_metrics_qmd_in_range() {
    let inventory = create_test_inventory();
    let metrics = compute_stand_metrics(&inventory);
    assert!(units(metrics.quadratic_mean_diameter) > 10.0);
    assert!(units(metrics.quadratic_mean_diameter) < 25.0);
}

#[test]
fn test_sampling_statistics() {
    let inventory = create_test_inventory();
    let stats =
        SamplingStatistics::compute(&inventory, micro(0.95), t_critical(0.95, 3)).unwrap();
    assert!(stats.tpa.mean > 0);
    assert!(stats.tpa.lower < stats.tpa.upper as i128);
    assert_eq!(stats.tpa.sample_size, 3);
    assert_eq!(stats.tpa.confidence_level, micro(0.95));
}

#[test]
fn test_sampling_statistics_all_metrics_have_ci() {
    let inventory = create_test_inventory();
    let stats =
        SamplingStatistics::compute(&inventory, micro(0.95), t_critical(0.95, 3)).unwrap();
    for ci in &[&stats.tpa, &stats.basal_area, &stats.volume_cuft, &stats.volume_bdft] {
        assert!(ci.lower <= ci.mean as i128);
        assert!(ci.mean as u128 <= ci.upper);
        assert_eq!(ci.sample_size, 3);
    }
}

#[test]
fn test_sampling_statistics_90_vs_95() {
    let inventory = create_test_inventory();
    let stats_90 =
        SamplingStatistics::compute(&inventory, micro(0.90), t_critical(0.90, 3)).unwrap();
    let stats_95 =
        SamplingStatistics::compute(&inventory, micro(0.95), t_critical(0.95, 3)).unwrap();
    let width_90 = stats_90.tpa.upper as i128 - stats_90.tpa.lower;
    let width_95 = stats_95.tpa.upper as i128 - stats_95.tpa.lower;
    assert!(width_95 > width_90);
    assert_eq!(stats_90.tpa.mean, stats_95.tpa.mean);
}

#[test]
fn test_diameter_distribution() {
    let inventory = create_test_inventory();
    let dist = DiameterDistribution::from_inventory(&inventory, micro(2.0));
    assert!(!dist.classes.is_empty());
    assert_eq!(dist.class_width, micro(2.0));
    for class in &dist.classes {
        assert!(class.tpa > 0);
        assert!(class.basal_area > 0);
    }
}

#[test]
fn test_diameter_distribution_class_ordering() {
    let inventory = create_test_inventory();
    let dist = DiameterDistribution::from_inventory(&inventory, micro(2.0));
    for i in 1..dist.classes.len() {
        assert!(dist.classes[i].lower >= dist.classes[i - 1].upper);
    }
}

#[test]
fn test_diameter_distribution_different_widths() {
    let inventory = create_test_inventory();
    let dist_1 = DiameterDistribution::from_inventory(&inventory, micro(1.0));
    let dist_2 = DiameterDistribution::from_inventory(&inventory, micro(2.0));
    let dist_4 = DiameterDistribution::from_inventory(&inventory, micro(4.0));
    assert!(dist_1.classes.len() >= dist_2.classes.len());
    assert!(dist_2.classes.len() >= dist_4.classes.len());
}

#[test]
fn test_growth_projection() {
    let inventory = create_test_inventory();
    let projections = project_growth(&inventory, &logistic_model(), 10).unwrap();
    assert_eq!(projections.len(), 11);
    assert_eq!(projections[0].year, 0);
    assert_eq!(projections[10].year, 10);
    assert!(projections[10].basal_area >= projections[0].basal_area);
}

#[test]
fn test_growth_all_models() {
    let inventory = create_test_inventory();
    let models = vec![
        GrowthModel::Exponential {
            annual_rate: micro(0.03),
            mortality_rate: micro(0.005),
        },
        logistic_model(),
        GrowthModel::Linear {
            annual_increment: micro(2.0),
            mortality_rate: micro(0.5),
        },
    ];
    for model in &models {
        let projections = project_growth(&inventory, model, 10).unwrap();
        assert_eq!(projections.len(), 11);
        assert_eq!(projections[0].year, 0);
    }
}

#[test]
fn test_growth_empty_inventory_error() {
    let empty = ForestInventory::new("Empty");
    let model = GrowthModel::Exponential {
        annual_rate: micro(0.03),
        mortality_rate: 0,
    };
    assert!(project_growth(&empty, &model, 10).is_err());
}

#[test]
fn integration_test_test_species_list() {
    let inventory = create_test_inventory();
    let species = inventory.species_list();
    assert_eq!(species.len(), 2);
    assert!(species.iter().any(|s| s.code == "DF"));
    assert!(species.iter().any(|s| s.code == "WRC"));
}

#[test]
fn test_full_analysis_workflow() {
    let inventory = create_test_inventory();
    let metrics = compute_stand_metrics(&inventory);
    assert!(metrics.total_tpa > 0);
    assert!(metrics.num_species > 0);

    let dist = DiameterDistribution::from_inventory(&inventory, micro(2.0));
    assert!(!dist.classes.is_empty());

    let stats =
        SamplingStatistics::compute(&inventory, micro(0.95), t_critical(0.95, 3)).unwrap();
    assert!(stats.tpa.mean > 0);

    let proj = project_growth(&inventory, &logistic_model(), 20).unwrap();
    assert_eq!(proj.len(), 21);

    assert_eq!(metrics.total_tpa, stats.tpa.mean);
    assert_eq!(metrics.total_basal_area, stats.basal_area.mean);
}

#[test]
fn test_single_plot_inventory() {
    let mut inventory = ForestInventory::new("Single Plot");
    inventory.plots.push(Plot {
        plot_id: 1,
        plot_size_acres: micro(0.2),
        slope_percent: None,
        aspect_degrees: None,
        elevation_ft: None,
        trees: vec![Tree {
            tree_id: 1,
            plot_id: 1,
            species: Species {
                common_name: "Douglas Fir".to_string(),
                code: "DF".to_string(),
            },
            dbh: micro(14.0),
            height: Some(micro(85.0)),
            crown_ratio: Some(micro(0.5)),
            status: TreeStatus::Live,
            expansion_factor: micro(5.0),
            age: Some(60),
            defect: None,
        }],
    });
    let metrics = compute_stand_metrics(&inventory);
    assert!(metrics.total_tpa > 0);
    assert_eq!(metrics.num_species, 1);
    assert!(SamplingStatistics::compute(&inventory, micro(0.95), micro(2.0)).is_err());
}

#[test]
fn test_inventory_all_optional_fields_none() {
    let mut inventory = ForestInventory::new("Minimal");
    inventory.plots.push(Plot {
        plot_id: 1,
        plot_size_acres: micro(0.2),
        slope_percent: None,
        aspect_degrees: None,
        elevation_ft: None,
        trees: vec![Tree {
            tree_id: 1,
            plot_id: 1,
            species: Species {
                common_name: "Douglas Fir".to_string(),
                code: "DF".to_string(),
            },
            dbh: micro(14.0),
            height: None,
            crown_ratio: None,
            status: TreeStatus::Live,
            expansion_factor: micro(5.0),
            age: None,
            defect: None,
        }],
    });
    let metrics = compute_stand_metrics(&inventory);
    assert!(metrics.total_tpa > 0);
    assert!(metrics.mean_height.is_none());
    assert_eq!(metrics.total_volume_cuft, 0);
    assert_eq!(metrics.total_volume_bdft, 0);
}

#[test]
fn test_large_inventory() {
    let mut inventory = ForestInventory::new("Large");
    for plot_id in 1..=50u32 {
        let mut trees = Vec::new();
        for tree_id in 1..=20u32 {
            trees.push(Tree {
                tree_id,
                plot_id,
                species: Species {
                    common_name: if tree_id % 3 == 0 {
                        "Western Red Cedar"
                    } else {
                        "Douglas Fir"
                    }
                    .to_string(),
                    code: if tree_id % 3 == 0 { "WRC" } else { "DF" }.to_string(),
                },
                dbh: micro(8.0 + (tree_id as f64) * 1.5 + (plot_id as f64) * 0.3),
                height: Some(micro(50.0 + tree_id as f64 * 5.0 + plot_id as f64 * 2.0)),
                crown_ratio: Some(micro(0.4)),
                status: if tree_id % 10 == 0 {
                    TreeStatus::Dead
                } else {
                    TreeStatus::Live
                },
                expansion_factor: micro(4.0 + plot_id as f64 * 0.1),
                age: Some(50 + tree_id),
                defect: None,
            });
        }
        inventory.plots.push(Plot {
            plot_id,
            plot_size_acres: micro(0.2),
            slope_percent: Some(micro(15.0)),
            aspect_degrees: Some(micro(180.0)),
            elevation_ft: Some(micro(2500.0)),
            trees,
        });
    }
    assert_eq!(inventory.num_plots(), 50);
    assert_eq!(inventory.num_trees(), 1000);

    let metrics = compute_stand_metrics(&inventory);
    assert!(metrics.total_tpa > 0);

    let dist = DiameterDistribution::from_inventory(&inventory, micro(2.0));
    assert!(!dist.classes.is_empty());

    let stats =
        SamplingStatistics::compute(&inventory, micro(0.95), t_critical(0.95, 50)).unwrap();
    assert!(stats.tpa.sampling_error_percent > 0);
    assert!((stats.tpa.sampling_error_percent as f64 / 1e6) < 50.0);

    let proj = project_growth(&inventory, &logistic_model(), 10).unwrap();
    assert_eq!(proj.len(), 11);
}
