use dprojc::config::{ConfigFile, ConfigManager, TuiConfig};
use dprojc::docs::{validate_config, DocsConfig, DocsConfigError};
use dprojc::scanner::ConfigError;
use dprojc::types::ScanConfig;

#[test]
fn test_default_config() {
    let config = ScanConfig::default();
    assert_eq!(config.max_depth, Some(10));
    assert!(config.exclude_patterns.contains(&"node_modules".to_string()));
    assert!(config.project_indicators.contains(&".git".to_string()));
    assert!(!config.follow_symlinks);
}

#[test]
fn test_merge_config_file() {
    let mut config = ScanConfig::default();
    let file_config = ConfigFile {
        max_depth: Some(20),
        exclude_patterns: Some(vec!["merged_exclude".to_string()]),
        project_indicators: Some(vec!["merged_indicator".to_string()]),
        follow_symlinks: Some(true),
    };

    ConfigManager::merge_config_file(&mut config, file_config);

    assert_eq!(config.max_depth, Some(20));
    assert_eq!(config.exclude_patterns, vec!["merged_exclude"]);
    assert_eq!(config.project_indicators, vec!["merged_indicator"]);
    assert!(config.follow_symlinks);
}

#[test]
fn merge_drops_blank_entries_and_keeps_unset_fields() {
    let mut config = ScanConfig::default();
    let file_config = ConfigFile {
        max_depth: None,
        exclude_patterns: Some(vec!["a".to_string(), "  ".to_string(), "".to_string(), "b".to_string()]),
        project_indicators: None,
        follow_symlinks: None,
    };
    ConfigManager::merge_config_file(&mut config, file_config);
    assert_eq!(config.max_depth, Some(10));
    assert_eq!(config.exclude_patterns, vec!["a", "b"]);
    assert_eq!(config.project_indicators.len(), 10);
    assert!(!config.follow_symlinks);
}

#[test]
fn lib_test_config_validation() {
    let mut config = ScanConfig::default();
    assert!(ConfigManager::validate_config(&config).is_ok());

    config.max_depth = Some(0);
    assert!(ConfigManager::validate_config(&config).is_err());

    config.max_depth = Some(1001);
    assert!(ConfigManager::validate_config(&config).is_err());

    config.max_depth = Some(10);

    config.exclude_patterns = vec!["valid".to_string(), "".to_string()];
    assert!(ConfigManager::validate_config(&config).is_err());

    config.exclude_patterns = vec!["valid".to_string()];
    config.project_indicators = vec!["valid".to_string(), "   ".to_string()];
    assert!(ConfigManager::validate_config(&config).is_err());
}

#[test]
fn config_validation_error_kinds() {
    let mut config = ScanConfig::default();
    config.max_depth = Some(0);
    assert_eq!(ConfigManager::validate_config(&config), Err(ConfigError::ZeroDepth));
    config.max_depth = Some(1001);
    assert_eq!(ConfigManager::validate_config(&config), Err(ConfigError::DepthTooLarge));
    config.max_depth = Some(1000);
    assert_eq!(ConfigManager::validate_config(&config), Ok(()));
    config.exclude_patterns = vec!["\t".to_string()];
    assert_eq!(ConfigManager::validate_config(&config), Err(ConfigError::BlankPattern));
    config.exclude_patterns = vec![];
    config.project_indicators = vec!["".to_string()];
    assert_eq!(ConfigManager::validate_config(&config), Err(ConfigError::BlankIndicator));
}

#[test]
fn file_config_loading() {
    let config = ConfigManager::load_from_file_config(None).unwrap();
    assert_eq!(config.max_depth, Some(10));
    assert_eq!(config.exclude_patterns.len(), 7);

    let bad = ConfigFile {
        max_depth: Some(5000),
        exclude_patterns: None,
        project_indicators: None,
        follow_symlinks: None,
    };
    assert_eq!(ConfigManager::load_from_file_config(Some(bad)).unwrap_err(), ConfigError::DepthTooLarge);

    let good = ConfigFile {
        max_depth: Some(3),
        exclude_patterns: None,
        project_indicators: Some(vec!["Makefile".to_string()]),
        follow_symlinks: Some(true),
    };
    let config = ConfigManager::load_from_file_config(Some(good)).unwrap();
    assert_eq!(config.max_depth, Some(3));
    assert_eq!(config.project_indicators, vec!["Makefile"]);
    assert!(config.follow_symlinks);
}

#[test]
fn test_tui_config_merge() {
    let mut config1 = TuiConfig {
        scan_paths: vec![String::from("/path1")],
        max_display_projects: Some(10),
        show_details: false,
    };

    let config2 = TuiConfig {
        scan_paths: vec![String::from("/path2")],
        max_display_projects: Some(20),
        show_details: true,
    };

    config1.merge(config2);
    assert_eq!(config1.scan_paths, vec![String::from("/path2")]);
    assert_eq!(config1.max_display_projects, Some(20));
    assert!(config1.show_details);
}

#[test]
fn tui_merge_keeps_paths_when_other_has_none() {
    let mut config = TuiConfig {
        scan_paths: vec![String::from("/keep")],
        max_display_projects: Some(7),
        show_details: true,
    };
    config.merge(TuiConfig { scan_paths: vec![], max_display_projects: None, show_details: false });
    assert_eq!(config.scan_paths, vec![String::from("/keep")]);
    assert_eq!(config.max_display_projects, Some(7));
    assert!(!config.show_details);

    config.apply_overrides(Some(3), Some(true));
    assert_eq!(config.max_display_projects, Some(3));
    assert!(config.show_details);
    config.apply_overrides(None, None);
    assert_eq!(config.max_display_projects, Some(3));
}

#[test]
fn docs_config_default_and_validation() {
    let config = DocsConfig::default();
    assert_eq!(config.output_dir, "docs");
    assert_eq!(config.theme, "base16-ocean.dark");
    assert!(config.template_dir.is_none());
    assert_eq!(validate_config(&config, false), Ok(()));

    let mut empty = DocsConfig::default();
    empty.output_dir = String::new();
    assert_eq!(validate_config(&empty, true), Err(DocsConfigError::EmptyOutputDir));

    let mut templated = DocsConfig::default();
    templated.template_dir = Some("/no/such/dir".to_string());
    assert_eq!(validate_config(&templated, false), Err(DocsConfigError::MissingTemplateDir));
    assert_eq!(validate_config(&templated, true), Ok(()));
}
