use forest_inventory_analyzer::Species;

fn species(name: &str, code: &str) -> Species {
    Species {
        common_name: name.to_string(),
        code: code.to_string(),
    }
}

#[test]
fn test_species_display() {
    let sp = species("Douglas Fir", "DF");
    assert_eq!(sp.label(), "Douglas Fir (DF)");
}

#[test]
fn test_species_equality() {
    let sp1 = species("Douglas Fir", "DF");
    let sp2 = species("Douglas Fir", "DF");
    assert_eq!(sp1, sp2);
}

#[test]
fn test_species_inequality() {
    let sp1 = species("Douglas Fir", "DF");
    let sp2 = species("Western Red Cedar", "WRC");
    assert_ne!(sp1, sp2);
}

#[test]
fn test_species_equality_keyed_on_code() {
    let sp1 = species("Douglas Fir", "DF");
    let sp2 = species("Doug Fir", "DF");
    assert_eq!(sp1, sp2);
}
