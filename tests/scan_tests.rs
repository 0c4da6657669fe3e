use dprojc::exclude::{decide_exclusion, glob_to_regex, should_exclude_dir, should_skip_project};
use dprojc::scanner::{
    collect_batch, select_stale_roots, validate_scan_config, validate_scan_path, ConfigError,
    ProjectScanner, ScanFailure,
};
use dprojc::types::{ProjectIndicator, ProjectType, ScanConfig, ScanErrorType, ScanResult};
use dprojc::walker::{has_project_indicator, join_path, DirEntryInfo};

/// Walk an in-memory tree: each entry maps a directory path to its listing (name, is_dir).
fn walk_tree(scanner: &ProjectScanner, root: &str, tree: &[(&str, Vec<(&str, bool)>)]) -> ScanResult {
    let mut walk = scanner.start(root.to_string(), 1_700_000_000);
    while let Some(dir) = walk.next_dir() {
        let listing: Vec<DirEntryInfo> = tree
            .iter()
            .find(|(p, _)| *p == dir.path)
            .map(|(_, entries)| {
                entries
                    .iter()
                    .map(|(n, d)| DirEntryInfo { name: n.to_string(), is_dir: *d })
                    .collect()
            })
            .unwrap_or_default();
        walk.visit(&dir, &listing);
    }
    walk.finish(5)
}

fn project_paths(r: &ScanResult) -> Vec<String> {
    let mut v: Vec<String> = r.projects.iter().map(|p| p.path.clone()).collect();
    v.sort();
    v
}

#[test]
fn test_invalid_config_validation() {
    let invalid_config = ScanConfig { max_depth: Some(0), ..ScanConfig::default() };
    assert!(ProjectScanner::with_config(invalid_config).is_err());
}

#[test]
fn test_should_exclude_dir() {
    let exclude_patterns = vec!["node_modules".to_string(), "*.tmp".to_string(), "test?".to_string()];
    assert!(should_exclude_dir("node_modules", &exclude_patterns));
    assert!(should_exclude_dir("test.tmp", &exclude_patterns));
    assert!(should_exclude_dir("test1", &exclude_patterns));
    assert!(!should_exclude_dir("src", &exclude_patterns));
    assert!(!should_exclude_dir("node_modules_backup", &exclude_patterns));
}

#[test]
fn test_should_exclude_dir_complex_patterns() {
    let patterns = vec!["*.log".to_string(), "temp_*".to_string(), "cache".to_string()];
    assert!(should_exclude_dir("debug.log", &patterns));
    assert!(should_exclude_dir("temp_files", &patterns));
    assert!(should_exclude_dir("cache", &patterns));
    assert!(!should_exclude_dir("myapp.log.backup", &patterns));
}

#[test]
fn glob_regex_escapes_meta_characters() {
    assert_eq!(glob_to_regex("*.tmp"), "^.*\\.tmp$");
    assert_eq!(glob_to_regex("a?b+(c)"), "^a.b\\+\\(c\\)$");
    let patterns = vec!["a+b*".to_string()];
    assert!(should_exclude_dir("a+bc", &patterns));
    assert!(!should_exclude_dir("aabc", &patterns));
    assert!(!should_exclude_dir("Node_Modules", &vec!["node_modules".to_string()]));
}

#[test]
fn exclusion_decision_after_match() {
    assert!(decide_exclusion("x", "x", None));
    assert!(decide_exclusion("ab", "a*", Some(true)));
    assert!(!decide_exclusion("ab", "a*", Some(false)));
    assert!(!decide_exclusion("ab", "a*", None));
    assert!(!decide_exclusion("ab", "abc", Some(true)));
}

#[test]
fn skip_project_checks_every_segment() {
    let patterns = vec!["node_modules".to_string()];
    assert!(should_skip_project("/r/a/node_modules/c", &patterns));
    assert!(!should_skip_project("/r/a/b", &patterns));
    assert!(should_skip_project("node_modules", &patterns));
}

#[test]
fn test_validate_scan_config() {
    let valid_config = ScanConfig::default();
    assert!(validate_scan_config(&valid_config).is_ok());

    let invalid_config = ScanConfig { max_depth: Some(0), ..ScanConfig::default() };
    assert!(validate_scan_config(&invalid_config).is_err());
}

#[test]
fn test_validate_scan_config_invalid_pattern() {
    let config_empty = ScanConfig { exclude_patterns: vec!["".to_string()], ..ScanConfig::default() };
    assert!(validate_scan_config(&config_empty).is_err());

    let config_whitespace = ScanConfig { exclude_patterns: vec!["   ".to_string()], ..ScanConfig::default() };
    assert!(validate_scan_config(&config_whitespace).is_err());

    let config_valid = ScanConfig {
        exclude_patterns: vec!["test*".to_string(), "valid?".to_string()],
        ..ScanConfig::default()
    };
    assert!(validate_scan_config(&config_valid).is_ok());
}

#[test]
fn scan_config_error_kinds() {
    let c = ScanConfig { exclude_patterns: vec!["".to_string()], ..ScanConfig::default() };
    assert_eq!(validate_scan_config(&c), Err(ConfigError::EmptyPattern));
    let c = ScanConfig { exclude_patterns: vec![" \n".to_string()], ..ScanConfig::default() };
    assert_eq!(validate_scan_config(&c), Err(ConfigError::BlankPattern));
    let c = ScanConfig { max_depth: Some(0), exclude_patterns: vec!["".to_string()], ..ScanConfig::default() };
    assert_eq!(validate_scan_config(&c), Err(ConfigError::ZeroDepth));
}

#[test]
fn nonexistent_root_is_fatal() {
    let r = validate_scan_path(&"/nonexistent/path".to_string(), false, false);
    assert!(matches!(r, Err(ScanFailure::PathNotFound(ref p)) if p == "/nonexistent/path"));
    let r = validate_scan_path(&"/etc/hosts".to_string(), true, false);
    assert!(matches!(r, Err(ScanFailure::NotADirectory(_))));
    assert!(validate_scan_path(&"/tmp".to_string(), true, true).is_ok());
}

#[test]
fn batch_fails_on_any_invalid_root() {
    let ok = ScanResult {
        root_path: "/a".to_string(),
        projects: vec![],
        excluded_dirs: vec![],
        errors: vec![],
        dirs_scanned: 1,
        scan_duration_ms: 0,
    };
    let all = collect_batch(vec![Ok(ok.clone()), Ok(ok.clone())]).unwrap();
    assert_eq!(all.len(), 2);
    let failed = collect_batch(vec![
        Ok(ok.clone()),
        Err(ScanFailure::PathNotFound("/missing".to_string())),
        Err(ScanFailure::NotADirectory("/file".to_string())),
    ]);
    assert!(matches!(failed, Err(ScanFailure::PathNotFound(ref p)) if p == "/missing"));
}

#[test]
fn stale_roots_are_rescanned() {
    let roots = vec!["/a".to_string(), "/b".to_string(), "/c".to_string()];
    assert_eq!(select_stale_roots(&roots, &[true, false, true]), vec!["/b".to_string()]);
    assert!(select_stale_roots(&roots, &[true, true, true]).is_empty());
}

#[test]
fn indicators_in_configuration_order() {
    let names = vec!["Cargo.toml".to_string(), "README".to_string(), ".git".to_string(), "x".to_string()];
    let indicators = vec![".git".to_string(), "Cargo.toml".to_string(), "x".to_string(), "go.mod".to_string()];
    let found = has_project_indicator(&names, &indicators);
    assert_eq!(
        found,
        vec![
            ProjectIndicator::GitDirectory,
            ProjectIndicator::CargoToml,
            ProjectIndicator::Custom("x".to_string())
        ]
    );
}

#[test]
fn join_path_adds_one_separator() {
    assert_eq!(join_path(&"/r".to_string(), &"a".to_string()), "/r/a");
    assert_eq!(join_path(&"/".to_string(), &"a".to_string()), "/a");
    assert_eq!(join_path(&"".to_string(), &"a".to_string()), "a");
}

#[test]
fn scan_reports_git_and_rust_and_skips_node_modules() {
    let scanner = ProjectScanner::new().unwrap();
    let tree = vec![
        ("/r", vec![("a", true)]),
        ("/r/a", vec![(".git", true), ("b", true), ("node_modules", true)]),
        ("/r/a/b", vec![("Cargo.toml", false)]),
        ("/r/a/node_modules", vec![("c", true)]),
        ("/r/a/node_modules/c", vec![("package.json", false)]),
    ];
    let result = walk_tree(&scanner, "/r", &tree);
    assert_eq!(project_paths(&result), vec!["/r/a".to_string(), "/r/a/b".to_string()]);
    let a = result.projects.iter().find(|p| p.path == "/r/a").unwrap();
    assert_eq!(a.project_type, ProjectType::Git);
    let b = result.projects.iter().find(|p| p.path == "/r/a/b").unwrap();
    assert_eq!(b.project_type, ProjectType::Rust);
    assert!(result.excluded_dirs.contains(&"/r/a/node_modules".to_string()));
    assert!(result.errors.is_empty());
    assert_eq!(result.scan_duration_ms, 5);
    assert_eq!(result.root_path, "/r");
}

#[test]
fn scan_keeps_all_indicators_and_precedence() {
    let scanner = ProjectScanner::new().unwrap();
    let tree = vec![("/p", vec![("Cargo.toml", false), ("package.json", false), (".git", true)])];
    let result = walk_tree(&scanner, "/p", &tree);
    assert_eq!(result.projects.len(), 1);
    let p = &result.projects[0];
    assert_eq!(p.project_type, ProjectType::Rust);
    assert_eq!(p.indicators.len(), 3);
    assert!(p.indicators.contains(&ProjectIndicator::CargoToml));
    assert!(p.indicators.contains(&ProjectIndicator::PackageJson));
    assert!(p.indicators.contains(&ProjectIndicator::GitDirectory));
    assert_eq!(p.last_scanned, 1_700_000_000);
}

#[test]
fn scan_excludes_hidden_but_enters_indicator_dirs() {
    let config = ScanConfig { exclude_patterns: vec![], ..ScanConfig::default() };
    let scanner = ProjectScanner::with_config(config).unwrap();
    let tree = vec![
        ("/h", vec![(".hidden", true), (".git", true)]),
        ("/h/.hidden", vec![("Cargo.toml", false)]),
        ("/h/.git", vec![("package.json", false)]),
    ];
    let result = walk_tree(&scanner, "/h", &tree);
    assert!(result.excluded_dirs.contains(&"/h/.hidden".to_string()));
    assert!(!result.excluded_dirs.contains(&"/h/.git".to_string()));
    assert_eq!(project_paths(&result), vec!["/h".to_string(), "/h/.git".to_string()]);
    let h = result.projects.iter().find(|p| p.path == "/h").unwrap();
    assert_eq!(h.project_type, ProjectType::Git);
}

#[test]
fn scan_depth_bound() {
    let tree = vec![
        ("/d", vec![("l1", true)]),
        ("/d/l1", vec![("l2", true)]),
        ("/d/l1/l2", vec![("l3", true)]),
        ("/d/l1/l2/l3", vec![("go.mod", false)]),
    ];
    let shallow = ProjectScanner::with_config(ScanConfig { max_depth: Some(1), ..ScanConfig::default() }).unwrap();
    let result = walk_tree(&shallow, "/d", &tree);
    assert!(result.projects.is_empty());
    assert_eq!(result.dirs_scanned, 2);

    let deep = ProjectScanner::with_config(ScanConfig { max_depth: Some(3), ..ScanConfig::default() }).unwrap();
    let result = walk_tree(&deep, "/d", &tree);
    assert_eq!(project_paths(&result), vec!["/d/l1/l2/l3".to_string()]);
    assert_eq!(result.projects[0].project_type, ProjectType::Go);
}

#[test]
fn scan_twice_gives_same_projects() {
    let scanner = ProjectScanner::new().unwrap();
    let tree = vec![
        ("/s", vec![("x", true), ("y", true), ("target", true)]),
        ("/s/x", vec![("pom.xml", false), ("requirements.txt", false)]),
        ("/s/y", vec![("devenv.nix", false)]),
        ("/s/target", vec![("Cargo.toml", false)]),
    ];
    let first = walk_tree(&scanner, "/s", &tree);
    let second = walk_tree(&scanner, "/s", &tree);
    assert_eq!(project_paths(&first), project_paths(&second));
    for (p, q) in first.projects.iter().zip(second.projects.iter()) {
        assert_eq!(p.path, q.path);
        assert_eq!(p.project_type, q.project_type);
        assert_eq!(p.indicators, q.indicators);
    }
    assert_eq!(project_paths(&first), vec!["/s/x".to_string(), "/s/y".to_string()]);
    assert!(first.excluded_dirs.contains(&"/s/target".to_string()));
}

#[test]
fn scan_records_errors_and_goes_on() {
    let scanner = ProjectScanner::new().unwrap();
    let mut walk = scanner.start("/e".to_string(), 0);
    let root = walk.next_dir().unwrap();
    walk.visit(&root, &[DirEntryInfo { name: "locked".to_string(), is_dir: true }]);
    let locked = walk.next_dir().unwrap();
    assert_eq!(locked.path, "/e/locked");
    assert_eq!(locked.depth, 1);
    walk.record_error(locked.path.clone(), ScanErrorType::PermissionDenied, "denied".to_string());
    assert!(walk.next_dir().is_none());
    let result = walk.finish(0);
    assert_eq!(result.errors.len(), 1);
    assert_eq!(result.errors[0].error_type, ScanErrorType::PermissionDenied);
    assert_eq!(result.dirs_scanned, 1);
}

#[test]
fn scanner_config_accessors() {
    let mut scanner = ProjectScanner::new().unwrap();
    assert_eq!(scanner.config().max_depth, Some(10));
    scanner.set_config(ScanConfig { max_depth: Some(2), ..ScanConfig::default() });
    assert_eq!(scanner.config().max_depth, Some(2));
}
