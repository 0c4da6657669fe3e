use dprojc::catalog::Catalog;
use dprojc::types::{Project, ProjectIndicator, ProjectType};

fn project(path: &str, project_type: ProjectType, indicators: Vec<ProjectIndicator>) -> Project {
    Project { path: path.to_string(), project_type, indicators, last_scanned: 100 }
}

#[test]
fn access_to_unknown_path_is_refused() {
    let mut catalog = Catalog::new();
    catalog.upsert_project(project("/p/a", ProjectType::Git, vec![ProjectIndicator::GitDirectory]));
    assert!(!catalog.record_access("/p/missing", 5));
    assert_eq!(catalog.entries.len(), 1);
    assert!(!catalog.is_project_root("/p/missing"));
    assert_eq!(catalog.entries[0].access_count, 0);
    assert_eq!(catalog.entries[0].last_accessed, None);
}

#[test]
fn access_to_known_path_counts() {
    let mut catalog = Catalog::new();
    catalog.upsert_project(project("/p/a", ProjectType::Git, vec![ProjectIndicator::GitDirectory]));
    assert!(catalog.record_access("/p/a", 5));
    assert!(catalog.record_access("/p/a", 9));
    assert_eq!(catalog.entries[0].access_count, 2);
    assert_eq!(catalog.entries[0].last_accessed, Some(9));
}

#[test]
fn rescan_replaces_type_and_indicators() {
    let mut catalog = Catalog::new();
    catalog.upsert_project(project("/p/a", ProjectType::Git, vec![ProjectIndicator::GitDirectory]));
    catalog.upsert_project(project("/p/b", ProjectType::Go, vec![ProjectIndicator::GoMod]));
    catalog.record_access("/p/a", 1);
    catalog.upsert_project(project(
        "/p/a",
        ProjectType::Rust,
        vec![ProjectIndicator::CargoToml, ProjectIndicator::GitDirectory],
    ));
    assert_eq!(catalog.entries.len(), 2);
    assert_eq!(catalog.all_projects(), vec!["/p/a".to_string(), "/p/b".to_string()]);
    let a = &catalog.entries[0];
    assert_eq!(a.project.project_type, ProjectType::Rust);
    assert_eq!(a.project.indicators.len(), 2);
    assert_eq!(a.access_count, 1);
    assert!(catalog.is_project_root("/p/b"));
}
