use disk_cache::changes::GetChangesForNewNotebook;

#[test]
fn new_records_its_arguments() {
    let g = GetChangesForNewNotebook::new("proj".to_string(), "nb".to_string());
    assert_eq!(g.project_path, "proj");
    assert_eq!(g.notebook_name, "nb");
}

#[test]
fn run_yields_no_changes() {
    let g = GetChangesForNewNotebook::new("proj".to_string(), "nb".to_string());
    assert!(g.run().is_empty());
}
