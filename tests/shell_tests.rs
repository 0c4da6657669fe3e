use dprojc::cli::{OutputFormat, OutputFormatter};
use dprojc::shell::{
    generate_bash_completions, generate_completions, generate_fish_completions,
    generate_zsh_completions, ShellType,
};

#[test]
fn test_shell_type_from_str() {
    assert_eq!(ShellType::from_str("bash"), Some(ShellType::Bash));
    assert_eq!(ShellType::from_str("zsh"), Some(ShellType::Zsh));
    assert_eq!(ShellType::from_str("fish"), Some(ShellType::Fish));
    assert_eq!(ShellType::from_str("BASH"), Some(ShellType::Bash));
    assert_eq!(ShellType::from_str("invalid"), None);
}

#[test]
fn shell_names() {
    assert_eq!(ShellType::from_lowercase("zsh"), Some(ShellType::Zsh));
    assert_eq!(ShellType::from_lowercase("ZSH"), None);
    assert_eq!(ShellType::Fish.to_string(), "fish");
}

#[test]
fn test_generate_bash_completions() {
    let script = generate_bash_completions();
    assert!(script.contains("dpc-cd()"));
    assert!(script.contains("_dpc_cd_completions"));
    assert!(script.contains("alias j="));
}

#[test]
fn test_generate_zsh_completions() {
    let script = generate_zsh_completions();
    assert!(script.contains("dpc-cd()"));
    assert!(script.contains("_dpc_cd_completions"));
    assert!(script.contains("compdef"));
}

#[test]
fn test_generate_fish_completions() {
    let script = generate_fish_completions();
    assert!(script.contains("function dpc-cd"));
    assert!(script.contains("complete -c dpc-cd"));
    assert!(script.contains("alias j="));
}

#[test]
fn test_generate_completions() {
    for shell in [ShellType::Bash, ShellType::Zsh, ShellType::Fish] {
        let script = generate_completions(shell);
        assert!(!script.is_empty());
        assert!(script.contains("dpc"));
    }
}

#[test]
fn test_output_format_variants() {
    let formats = vec![OutputFormat::Table, OutputFormat::Json, OutputFormat::Yaml];
    for format in formats {
        match format {
            OutputFormat::Table => {}
            OutputFormat::Json => {}
            OutputFormat::Yaml => {}
        }
    }
}

#[test]
fn test_output_formatter_creation() {
    let _formatter = OutputFormatter::new(OutputFormat::Json);
}

#[test]
fn test_project_type_parsing() {
    assert_eq!("rust".to_lowercase(), "rust");
    assert_eq!("nodejs", "nodejs");
    assert_eq!("python", "python");
    assert_eq!("go", "go");
    assert_eq!("java", "java");
    assert_eq!("git", "git");
    assert_eq!("nix", "nix");
    assert_eq!("unknown", "unknown");
}
