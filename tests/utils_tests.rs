use dprojc::types::ProjectType;
use dprojc::utils::{
    format_file_size, get_project_indicators_set, get_project_type_priority, get_relative_path,
    has_extension, is_hidden_path, is_path_within, safe_join_paths, sanitize_filename, PathError,
};

#[test]
fn test_get_relative_path_error() {
    let base = "/home/user/projects";
    let target = "/home/other";
    assert!(get_relative_path(base, target).is_err());
}

#[test]
fn relative_path_of_nested_target() {
    let relative = get_relative_path("/tmp/base", "/tmp/base/projects/rust").unwrap();
    assert_eq!(relative, "projects/rust");
    assert_eq!(get_relative_path("/tmp/base", "/tmp/base").unwrap(), "");
    assert_eq!(get_relative_path("/a/b", "/a/c"), Err(PathError::NotWithin));
}

#[test]
fn path_within_by_segments() {
    assert!(is_path_within("/tmp/t", "/tmp/t/subdir"));
    assert!(!is_path_within("/tmp/t/subdir", "/tmp/t"));
    assert!(is_path_within("/tmp/t", "/tmp/t"));
    assert!(!is_path_within("/tmp/t", "/tmp/tt"));
    assert!(!is_path_within("/tmp", "tmp/x"));
}

#[test]
fn test_safe_join_paths() {
    let base = "/home/user";
    let components = vec!["projects", "rust", "src"];
    let result = safe_join_paths(base, &components);
    assert_eq!(result, "/home/user/projects/rust/src");
}

#[test]
fn test_safe_join_paths_prevents_traversal() {
    let base = "/home/user";
    let components = vec!["..", "etc", "passwd"];
    let result = safe_join_paths(base, &components);
    assert_eq!(result, "/home/user/etc/passwd");
}

#[test]
fn safe_join_skips_absolute_and_backslash_components() {
    let result = safe_join_paths("/base/", &["/etc", "\\x", "a..b", "ok"]);
    assert_eq!(result, "/base/ok");
}

#[test]
fn test_has_extension() {
    assert!(has_extension("file.rs", &["rs"]));
    assert!(has_extension("file.RS", &["rs"]));
    assert!(!has_extension("file.rs", &["js"]));
    assert!(!has_extension("file", &["rs"]));
}

#[test]
fn extension_edge_cases() {
    assert!(!has_extension(".rs", &["rs"]));
    assert!(has_extension("dir/archive.tar.GZ", &["zip", "gz"]));
    assert!(has_extension("name.", &[""]));
}

#[test]
fn test_get_project_indicators_set() {
    let indicators = get_project_indicators_set();
    assert!(indicators.contains(".git"));
    assert!(indicators.contains("package.json"));
    assert!(indicators.contains("Cargo.toml"));
    assert_eq!(indicators.len(), 9);
}

#[test]
fn test_format_file_size() {
    assert_eq!(format_file_size(0), "0 B");
    assert_eq!(format_file_size(1023), "1023 B");
    assert_eq!(format_file_size(1024), "1.0 KB");
    assert_eq!(format_file_size(1024 * 1024), "1.0 MB");
    assert_eq!(format_file_size(1024 * 1024 * 1024), "1.0 GB");
}

#[test]
fn file_size_rounding_and_largest_unit() {
    assert_eq!(format_file_size(1536), "1.5 KB");
    assert_eq!(format_file_size(1280), "1.2 KB");
    assert_eq!(format_file_size(1024u64.pow(4)), "1.0 TB");
    assert_eq!(format_file_size(1024u64.pow(5)), "1024.0 TB");
}

#[test]
fn test_is_hidden_path() {
    assert!(is_hidden_path(".hidden"));
    assert!(is_hidden_path(".git"));
    assert!(!is_hidden_path("normal"));
    assert!(!is_hidden_path("file.txt"));
}

#[test]
fn hidden_path_uses_last_segment() {
    assert!(is_hidden_path("/home/user/.config"));
    assert!(!is_hidden_path("/home/.user/config"));
    assert!(!is_hidden_path("/a/.."));
}

#[test]
fn test_get_project_type_priority() {
    assert_eq!(get_project_type_priority(&ProjectType::Rust), 10);
    assert_eq!(get_project_type_priority(&ProjectType::NodeJs), 9);
    assert_eq!(get_project_type_priority(&ProjectType::Unknown), 0);
}

#[test]
fn test_sanitize_filename() {
    assert_eq!(sanitize_filename("normal_file"), "normal_file");
    assert_eq!(sanitize_filename("file:with*chars?"), "file_with_chars_");
    assert_eq!(sanitize_filename("path/to/file"), "path_to_file");
}

#[test]
fn sanitize_replaces_control_characters() {
    assert_eq!(sanitize_filename("a\tb\u{7f}c"), "a_b_c");
}
