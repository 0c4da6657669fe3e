use dprojc::config::{ConfigManager, TuiConfig};
use dprojc::env::{parse_bool_str, parse_usize_str, split_list, trim_str, EnvOverrides};
use dprojc::types::ScanConfig;

#[test]
fn trimming_and_lists() {
    assert_eq!(trim_str("  a b \t\n"), "a b");
    assert_eq!(trim_str("   "), "");
    assert_eq!(split_list(" a, b ,, c "), vec!["a", "b", "c"]);
    assert!(split_list("  ").is_empty());
    assert!(split_list(" , ,").is_empty());
}

#[test]
fn number_and_flag_parsing() {
    assert_eq!(parse_usize_str("15"), Some(15));
    assert_eq!(parse_usize_str("+7"), Some(7));
    assert_eq!(parse_usize_str("+"), None);
    assert_eq!(parse_usize_str(""), None);
    assert_eq!(parse_usize_str("-1"), None);
    assert_eq!(parse_usize_str("12a"), None);
    assert_eq!(parse_usize_str("99999999999999999999999"), None);
    assert_eq!(parse_usize_str(&usize::MAX.to_string()), Some(usize::MAX));
    assert_eq!(parse_bool_str("true"), Some(true));
    assert_eq!(parse_bool_str("false"), Some(false));
    assert_eq!(parse_bool_str("True"), None);
}

#[test]
fn environment_overrides_scan_config() {
    let mut config = ScanConfig::default();
    let env = EnvOverrides {
        max_depth: Some(" 15 ".to_string()),
        exclude_patterns: Some("node_modules, target ,".to_string()),
        project_indicators: Some(" , ".to_string()),
        follow_symlinks: Some("true".to_string()),
    };
    ConfigManager::load_from_env(&mut config, &env);
    assert_eq!(config.max_depth, Some(15));
    assert_eq!(config.exclude_patterns, vec!["node_modules", "target"]);
    assert_eq!(config.project_indicators.len(), 10);
    assert!(config.follow_symlinks);

    let invalid = EnvOverrides {
        max_depth: Some("deep".to_string()),
        exclude_patterns: None,
        project_indicators: None,
        follow_symlinks: Some("yes".to_string()),
    };
    ConfigManager::load_from_env(&mut config, &invalid);
    assert_eq!(config.max_depth, Some(15));
    assert!(config.follow_symlinks);
}

#[test]
fn environment_overrides_tui_config() {
    let mut config = TuiConfig { scan_paths: vec!["/a".to_string()], max_display_projects: None, show_details: true };
    config.load_from_env(None, Some("25".to_string()), Some("nope".to_string()));
    assert_eq!(config.scan_paths, vec!["/a".to_string()]);
    assert_eq!(config.max_display_projects, Some(25));
    assert!(!config.show_details);
    config.load_from_env(Some(vec!["/b".to_string()]), Some(" 3".to_string()), Some("true".to_string()));
    assert_eq!(config.scan_paths, vec!["/b".to_string()]);
    assert_eq!(config.max_display_projects, Some(25));
    assert!(config.show_details);
}
