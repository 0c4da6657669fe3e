use dprojc::types::{
    ProjectIndicator, ProjectType, ScanConfig, ScanError, ScanErrorType,
};
use std::collections::HashSet;

#[test]
fn test_project_type_from_indicators() {
    assert_eq!(ProjectType::from_indicators(&[ProjectIndicator::CargoToml]), ProjectType::Rust);
    assert_eq!(ProjectType::from_indicators(&[ProjectIndicator::PackageJson]), ProjectType::NodeJs);
    assert_eq!(ProjectType::from_indicators(&[ProjectIndicator::Gemfile]), ProjectType::Ruby);
    assert_eq!(ProjectType::from_indicators(&[ProjectIndicator::Gemspec]), ProjectType::Ruby);
    assert_eq!(ProjectType::from_indicators(&[ProjectIndicator::PyprojectToml]), ProjectType::Python);
    assert_eq!(ProjectType::from_indicators(&[ProjectIndicator::RequirementsTxt]), ProjectType::Python);
    assert_eq!(ProjectType::from_indicators(&[ProjectIndicator::GoMod]), ProjectType::Go);
    assert_eq!(ProjectType::from_indicators(&[ProjectIndicator::PomXml]), ProjectType::Java);
    assert_eq!(ProjectType::from_indicators(&[ProjectIndicator::GitDirectory]), ProjectType::Git);
    assert_eq!(ProjectType::from_indicators(&[ProjectIndicator::DevenvNix]), ProjectType::Nix);

    assert_eq!(
        ProjectType::from_indicators(&[ProjectIndicator::PackageJson, ProjectIndicator::CargoToml]),
        ProjectType::Rust
    );
    assert_eq!(
        ProjectType::from_indicators(&[ProjectIndicator::GitDirectory, ProjectIndicator::PackageJson]),
        ProjectType::NodeJs
    );

    assert_eq!(
        ProjectType::from_indicators(&[ProjectIndicator::Custom("unknown".to_string())]),
        ProjectType::Unknown
    );
    assert_eq!(ProjectType::from_indicators(&[]), ProjectType::Unknown);
    assert_eq!(
        ProjectType::from_indicators(&[ProjectIndicator::Gemfile, ProjectIndicator::Gemspec]),
        ProjectType::Ruby
    );
}

#[test]
fn test_project_indicator_from_path_name() {
    assert_eq!(ProjectIndicator::from_path_name(".git"), Some(ProjectIndicator::GitDirectory));
    assert_eq!(ProjectIndicator::from_path_name("package.json"), Some(ProjectIndicator::PackageJson));
    assert_eq!(ProjectIndicator::from_path_name("Gemfile"), Some(ProjectIndicator::Gemfile));
    assert_eq!(ProjectIndicator::from_path_name(".gemspec"), Some(ProjectIndicator::Gemspec));
    assert_eq!(ProjectIndicator::from_path_name("Cargo.toml"), Some(ProjectIndicator::CargoToml));
    assert_eq!(ProjectIndicator::from_path_name("pyproject.toml"), Some(ProjectIndicator::PyprojectToml));
    assert_eq!(ProjectIndicator::from_path_name("go.mod"), Some(ProjectIndicator::GoMod));
    assert_eq!(ProjectIndicator::from_path_name("requirements.txt"), Some(ProjectIndicator::RequirementsTxt));
    assert_eq!(ProjectIndicator::from_path_name("pom.xml"), Some(ProjectIndicator::PomXml));
    assert_eq!(ProjectIndicator::from_path_name("devenv.nix"), Some(ProjectIndicator::DevenvNix));

    assert_eq!(ProjectIndicator::from_path_name("unknown.txt"), None);
    assert_eq!(ProjectIndicator::from_path_name(""), None);
    assert_eq!(ProjectIndicator::from_path_name("random_file"), None);
}

#[test]
fn test_scan_config_default() {
    let config = ScanConfig::default();

    assert_eq!(config.max_depth, Some(10));
    assert!(config.exclude_patterns.contains(&"node_modules".to_string()));
    assert!(config.exclude_patterns.contains(&"vendor".to_string()));
    assert!(config.exclude_patterns.contains(&".git".to_string()));
    assert!(config.exclude_patterns.contains(&"__pycache__".to_string()));
    assert!(config.exclude_patterns.contains(&"target".to_string()));
    assert!(config.exclude_patterns.contains(&"build".to_string()));
    assert!(config.exclude_patterns.contains(&"dist".to_string()));
    assert_eq!(config.exclude_patterns.len(), 7);

    assert!(config.project_indicators.contains(&".git".to_string()));
    assert!(config.project_indicators.contains(&"package.json".to_string()));
    assert!(config.project_indicators.contains(&"Gemfile".to_string()));
    assert!(config.project_indicators.contains(&".gemspec".to_string()));
    assert!(config.project_indicators.contains(&"Cargo.toml".to_string()));
    assert!(config.project_indicators.contains(&"pyproject.toml".to_string()));
    assert!(config.project_indicators.contains(&"go.mod".to_string()));
    assert!(config.project_indicators.contains(&"pom.xml".to_string()));
    assert!(config.project_indicators.contains(&"devenv.nix".to_string()));
    assert!(config.project_indicators.contains(&"requirements.txt".to_string()));
    assert_eq!(config.project_indicators.len(), 10);

    assert_eq!(config.follow_symlinks, false);
}

#[test]
fn test_hash_eq_implementations() {
    let mut set = HashSet::new();
    set.insert(ProjectType::Rust);
    set.insert(ProjectType::NodeJs);
    set.insert(ProjectType::Rust);
    assert_eq!(set.len(), 2);

    let mut indicator_set = HashSet::new();
    indicator_set.insert(ProjectIndicator::CargoToml);
    indicator_set.insert(ProjectIndicator::PackageJson);
    indicator_set.insert(ProjectIndicator::CargoToml);
    assert_eq!(indicator_set.len(), 2);

    indicator_set.insert(ProjectIndicator::Custom("test".to_string()));
    indicator_set.insert(ProjectIndicator::Custom("test".to_string()));
    assert_eq!(indicator_set.len(), 3);
}

#[test]
fn lib_test_edge_cases() {
    assert_eq!(ProjectType::from_indicators(&[]), ProjectType::Unknown);

    assert_eq!(ProjectIndicator::from_path_name(""), None);
    assert_eq!(ProjectIndicator::from_path_name("file.with.dots.txt"), None);
    assert_eq!(ProjectIndicator::from_path_name("UPPERCASE"), None);

    let config = ScanConfig {
        max_depth: None,
        exclude_patterns: vec![],
        project_indicators: vec![],
        follow_symlinks: false,
    };
    assert_eq!(config.max_depth, None);

    let error = ScanError {
        path: String::from(""),
        error_type: ScanErrorType::Other,
        message: String::new(),
    };
    assert_eq!(error.message, "");
}

#[test]
fn test_project_indicator_custom() {
    let custom = ProjectIndicator::Custom("my_custom_indicator".to_string());
    match custom {
        ProjectIndicator::Custom(name) => assert_eq!(name, "my_custom_indicator"),
        _ => panic!("Expected Custom variant"),
    }
}

#[test]
fn test_scan_error_types() {
    assert_eq!(ScanErrorType::PermissionDenied as u8, 0);
    assert_eq!(ScanErrorType::PathNotFound as u8, 1);
    assert_eq!(ScanErrorType::IoError as u8, 2);
    assert_eq!(ScanErrorType::Other as u8, 3);
}

#[test]
fn test_display_implementations() {
    assert_eq!(ProjectType::Rust.to_string(), "Rust");
    assert_eq!(ProjectType::NodeJs.to_string(), "Node.js");
    assert_eq!(ProjectType::Unknown.to_string(), "Unknown");

    assert_eq!(ScanErrorType::PermissionDenied.to_string(), "Permission Denied");
    assert_eq!(ScanErrorType::IoError.to_string(), "IO Error");
    assert_eq!(ScanErrorType::Other.to_string(), "Other Error");

    assert_eq!(ProjectIndicator::CargoToml.to_string(), "Cargo.toml");
    assert_eq!(ProjectIndicator::PackageJson.to_string(), "package.json");
    assert_eq!(ProjectIndicator::RequirementsTxt.to_string(), "requirements.txt");
    assert_eq!(ProjectIndicator::Custom("test".to_string()).to_string(), "test");

    let error = ScanError {
        path: String::from("/test/path"),
        error_type: ScanErrorType::PermissionDenied,
        message: "Access denied".to_string(),
    };
    assert_eq!(error.to_string(), "/test/path: Access denied (Permission Denied)");
}

#[test]
fn test_project_types_exhaustive() {
    let types = vec![
        ProjectType::Git,
        ProjectType::NodeJs,
        ProjectType::Ruby,
        ProjectType::Rust,
        ProjectType::Python,
        ProjectType::Go,
        ProjectType::Java,
        ProjectType::Nix,
        ProjectType::Unknown,
    ];
    assert_eq!(types.len(), 9);
}

#[test]
fn display_of_remaining_labels() {
    assert_eq!(ProjectType::Git.to_string(), "Git");
    assert_eq!(ProjectType::Nix.to_string(), "Nix");
    assert_eq!(ScanErrorType::PathNotFound.to_string(), "Path Not Found");
    assert_eq!(ProjectIndicator::GitDirectory.to_string(), ".git");
    assert_eq!(ProjectIndicator::DevenvNix.to_string(), "devenv.nix");
}
