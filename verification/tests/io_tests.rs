use forest_inventory_analyzer::{CsvFormat, ExcelFormat, JsonFormat};

#[test]
fn test_json_format_default() {
    let fmt = JsonFormat::default();
    assert!(!fmt.pretty);
}

#[test]
fn test_format_markers_exist() {
    let _csv = CsvFormat;
    let _excel = ExcelFormat;
    let json = JsonFormat { pretty: true };
    assert!(json.pretty);
}
