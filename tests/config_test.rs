use dump_dir::config::{apply_overrides, local_config, local_config_candidate, AppConfig};
use dump_dir::errors::DumpError;

#[test]
fn default_has_expected_extensions() {
    let cfg = AppConfig::default();
    assert!(cfg.skip_extensions.contains(&"lock".to_string()));
    assert!(cfg.skip_extensions.contains(&"snap".to_string()));
}

#[test]
fn default_skip_binary_is_true() {
    assert!(AppConfig::default().skip_binary);
}

#[test]
fn default_skip_hidden_is_true() {
    assert!(AppConfig::default().skip_hidden);
}

#[test]
fn default_skip_globs_is_empty() {
    assert!(AppConfig::default().skip_globs.is_empty());
}

#[test]
fn default_lists_hold_the_documented_entries() {
    let cfg = AppConfig::default();
    assert_eq!(
        cfg.skip_extensions,
        vec!["snap", "lock", "new", "gitignore", "orig", "bak", "swp"]
    );
    assert_eq!(cfg.skip_patterns, vec![r".*test.*\.rs$"]);
    assert_eq!(
        cfg.skip_filenames,
        vec!["license", "readme", "changelog", "makefile", "dockerfile"]
    );
    assert_eq!(
        cfg.skip_path_components,
        vec![".github", ".git", "node_modules", ".direnv"]
    );
}

#[test]
fn no_filter_clears_every_rule() {
    let cfg = apply_overrides(AppConfig::default(), true, None, None);
    assert!(cfg.skip_extensions.is_empty());
    assert!(cfg.skip_patterns.is_empty());
    assert!(cfg.skip_filenames.is_empty());
    assert!(cfg.skip_path_components.is_empty());
    assert!(cfg.skip_globs.is_empty());
    assert!(!cfg.skip_binary);
    assert!(!cfg.skip_hidden);
}

#[test]
fn command_line_lists_replace_configured_ones() {
    let cfg = apply_overrides(
        AppConfig::default(),
        false,
        Some(vec!["txt".to_string()]),
        Some(vec!["^x$".to_string()]),
    );
    assert_eq!(cfg.skip_extensions, vec!["txt"]);
    assert_eq!(cfg.skip_patterns, vec!["^x$"]);
    assert_eq!(cfg.skip_filenames, AppConfig::default().skip_filenames);
    assert!(cfg.skip_binary);
    assert!(cfg.skip_hidden);
}

#[test]
fn overrides_apply_after_no_filter() {
    let cfg = apply_overrides(AppConfig::default(), true, Some(vec!["txt".to_string()]), None);
    assert_eq!(cfg.skip_extensions, vec!["txt"]);
    assert!(cfg.skip_patterns.is_empty());
}

#[test]
fn local_config_defaults_to_dump_toml() {
    assert_eq!(local_config_candidate(&None), "dump.toml");
    assert_eq!(local_config_candidate(&Some("custom.toml".to_string())), "custom.toml");
}

#[test]
fn missing_named_config_is_an_error() {
    match local_config("nope.toml".to_string(), true, false) {
        Err(DumpError::ConfigNotFound { path }) => assert_eq!(path, "nope.toml"),
        other => panic!("unexpected: {:?}", other),
    }
}

#[test]
fn missing_default_config_is_skipped() {
    assert!(matches!(local_config("dump.toml".to_string(), false, false), Ok(None)));
    assert!(matches!(
        local_config("dump.toml".to_string(), false, true),
        Ok(Some(p)) if p == "dump.toml"
    ));
}
