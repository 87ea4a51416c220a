use dump_dir::config::AppConfig;
use dump_dir::errors::DumpError;
use dump_dir::filter::Filter;

fn filter_from(cfg: AppConfig) -> Filter {
    match Filter::new(&cfg) {
        Ok(f) => f,
        Err(e) => panic!("Filter::new failed: {:?}", e),
    }
}

fn bare() -> AppConfig {
    AppConfig {
        skip_extensions: vec![],
        skip_patterns: vec![],
        skip_filenames: vec![],
        skip_path_components: vec![],
        skip_globs: vec![],
        skip_binary: false,
        skip_hidden: false,
    }
}

#[test]
fn skips_matching_extension() {
    let cfg = AppConfig {
        skip_extensions: vec!["lock".into()],
        ..bare()
    };
    let f = filter_from(cfg);
    assert!(f.should_skip("Cargo.lock", None, None));
}

#[test]
fn keeps_non_matching_extension() {
    let cfg = AppConfig {
        skip_extensions: vec!["lock".into()],
        ..bare()
    };
    let f = filter_from(cfg);
    assert!(!f.should_skip("main.rs", None, None));
}

#[test]
fn extension_check_is_case_insensitive() {
    let cfg = AppConfig {
        skip_extensions: vec!["lock".into()],
        ..bare()
    };
    let f = filter_from(cfg);
    assert!(f.should_skip("Cargo.LOCK", None, None));
}

#[test]
fn skips_exact_filename_no_extension() {
    let cfg = AppConfig {
        skip_filenames: vec!["makefile".into()],
        ..bare()
    };
    let f = filter_from(cfg);
    assert!(f.should_skip("Makefile", None, None));
}

#[test]
fn skips_exact_filename_with_extension() {
    let cfg = AppConfig {
        skip_filenames: vec!["readme".into()],
        ..bare()
    };
    let f = filter_from(cfg);
    assert!(f.should_skip("README.md", None, None));
}

#[test]
fn filename_check_is_case_insensitive() {
    let cfg = AppConfig {
        skip_filenames: vec!["dockerfile".into()],
        ..bare()
    };
    let f = filter_from(cfg);
    assert!(f.should_skip("DOCKERFILE", None, None));
}

#[test]
fn keeps_non_matching_filename() {
    let cfg = AppConfig {
        skip_filenames: vec!["makefile".into()],
        ..bare()
    };
    let f = filter_from(cfg);
    assert!(!f.should_skip("main.rs", None, None));
}

#[test]
fn skips_file_inside_blocked_component() {
    let cfg = AppConfig {
        skip_path_components: vec!["node_modules".into()],
        ..bare()
    };
    let f = filter_from(cfg);
    assert!(f.should_skip("node_modules/lodash/index.js", None, None));
}

#[test]
fn skips_deeply_nested_blocked_component() {
    let cfg = AppConfig {
        skip_path_components: vec![".github".into()],
        ..bare()
    };
    let f = filter_from(cfg);
    assert!(f.should_skip("project/.github/workflows/ci.yml", None, None));
}

#[test]
fn keeps_file_with_no_blocked_component() {
    let cfg = AppConfig {
        skip_path_components: vec!["node_modules".into()],
        ..bare()
    };
    let f = filter_from(cfg);
    assert!(!f.should_skip("src/index.js", None, None));
}

#[test]
fn skips_hidden_file_when_enabled() {
    let cfg = AppConfig {
        skip_hidden: true,
        ..bare()
    };
    let f = filter_from(cfg);
    assert!(f.should_skip(".env", None, None));
}

#[test]
fn skips_file_inside_hidden_dir() {
    let cfg = AppConfig {
        skip_hidden: true,
        ..bare()
    };
    let f = filter_from(cfg);
    assert!(f.should_skip(".config/something.toml", None, None));
}

#[test]
fn keeps_hidden_file_when_disabled() {
    let cfg = AppConfig {
        skip_hidden: false,
        ..bare()
    };
    let f = filter_from(cfg);
    assert!(!f.should_skip(".env", None, None));
}

#[test]
fn dot_single_not_treated_as_hidden() {
    let cfg = AppConfig {
        skip_hidden: true,
        ..bare()
    };
    let f = filter_from(cfg);
    assert!(!f.should_skip("./src/main.rs", None, None));
}

#[test]
fn skips_file_matching_regex_pattern() {
    let cfg = AppConfig {
        skip_patterns: vec![r".*test.*\.rs$".into()],
        ..bare()
    };
    let f = filter_from(cfg);
    assert!(f.should_skip("src/foo_test.rs", None, None));
}

#[test]
fn regex_pattern_is_case_insensitive() {
    let cfg = AppConfig {
        skip_patterns: vec![r".*test.*\.rs$".into()],
        ..bare()
    };
    let f = filter_from(cfg);
    assert!(f.should_skip("src/FooTEST.rs", None, None));
}

#[test]
fn keeps_file_not_matching_regex() {
    let cfg = AppConfig {
        skip_patterns: vec![r".*test.*\.rs$".into()],
        ..bare()
    };
    let f = filter_from(cfg);
    assert!(!f.should_skip("src/main.rs", None, None));
}

#[test]
fn skips_file_matching_double_star_glob() {
    let cfg = AppConfig {
        skip_globs: vec!["**/target/**".into()],
        ..bare()
    };
    let f = filter_from(cfg);
    assert!(f.should_skip("my_project/target/debug/dump-dir", None, None));
}

#[test]
fn skips_file_matching_extension_glob() {
    let cfg = AppConfig {
        skip_globs: vec!["**/*.min.js".into()],
        ..bare()
    };
    let f = filter_from(cfg);
    assert!(f.should_skip("static/app.min.js", None, None));
}

#[test]
fn glob_is_case_insensitive() {
    let cfg = AppConfig {
        skip_globs: vec!["**/TARGET/**".into()],
        ..bare()
    };
    let f = filter_from(cfg);
    assert!(f.should_skip("project/target/release/bin", None, None));
}

#[test]
fn keeps_file_not_matching_glob() {
    let cfg = AppConfig {
        skip_globs: vec!["**/target/**".into()],
        ..bare()
    };
    let f = filter_from(cfg);
    assert!(!f.should_skip("src/main.rs", None, None));
}

#[test]
fn invalid_regex_returns_error() {
    let cfg = AppConfig {
        skip_patterns: vec!["[invalid".into()],
        ..bare()
    };
    assert!(Filter::new(&cfg).is_err());
}

#[test]
fn invalid_glob_returns_error() {
    let cfg = AppConfig {
        skip_globs: vec!["[invalid".into()],
        ..bare()
    };
    assert!(Filter::new(&cfg).is_err());
}

#[test]
fn default_config_skips_lock_files() {
    let f = filter_from(AppConfig::default());
    assert!(f.should_skip("Cargo.lock", None, None));
}

#[test]
fn default_config_skips_snap_files() {
    let f = filter_from(AppConfig::default());
    assert!(f.should_skip("tests/snapshots/foo.snap", None, None));
}

#[test]
fn default_config_skips_test_rs_files() {
    let f = filter_from(AppConfig::default());
    assert!(f.should_skip("src/foo_test.rs", None, None));
}

#[test]
fn default_config_skips_hidden_files() {
    let f = filter_from(AppConfig::default());
    assert!(f.should_skip(".env", None, None));
}

#[test]
fn default_config_keeps_normal_rs_file() {
    let f = filter_from(AppConfig::default());
    // A file that could not be read is not treated as binary.
    assert!(!f.should_skip("src/main.rs", None, None));
}

#[test]
fn invalid_regex_names_the_pattern() {
    let cfg = AppConfig {
        skip_patterns: vec!["ok".into(), "[invalid".into()],
        skip_globs: vec!["[invalid".into()],
        ..bare()
    };
    match Filter::new(&cfg) {
        Err(DumpError::InvalidRegex { pattern, .. }) => assert_eq!(pattern, "[invalid"),
        Err(e) => panic!("unexpected error: {:?}", e),
        Ok(_) => panic!("built a filter from an invalid regex"),
    }
}

#[test]
fn invalid_glob_names_the_pattern() {
    let cfg = AppConfig {
        skip_globs: vec!["**/ok/**".into(), "[invalid".into()],
        ..bare()
    };
    match Filter::new(&cfg) {
        Err(DumpError::InvalidGlob { pattern, .. }) => assert_eq!(pattern, "[invalid"),
        Err(e) => panic!("unexpected error: {:?}", e),
        Ok(_) => panic!("built a filter from an invalid glob"),
    }
}

#[test]
fn dot_dot_not_treated_as_hidden() {
    let f = filter_from(AppConfig {
        skip_hidden: true,
        ..bare()
    });
    assert!(!f.should_skip("../src/main.rs", None, None));
    assert!(!f.should_skip_dir("..", None));
    assert!(!f.should_skip_dir(".", None));
}

#[test]
fn absolute_path_checks_only_its_file_name_for_hidden() {
    let f = filter_from(AppConfig {
        skip_hidden: true,
        ..bare()
    });
    assert!(!f.should_skip("/tmp/.tmpXYZ/main.rs", None, None));
    assert!(f.should_skip("/tmp/project/.env", None, None));
}

#[test]
fn component_check_is_case_insensitive() {
    let f = filter_from(AppConfig {
        skip_path_components: vec!["Node_Modules".into()],
        ..bare()
    });
    assert!(f.should_skip("web/NODE_MODULES/x/index.js", None, None));
    assert!(f.should_skip_dir("web/node_modules", None));
}

#[test]
fn stem_of_dotfile_is_the_whole_name() {
    let f = filter_from(AppConfig {
        skip_extensions: vec!["env".into()],
        ..bare()
    });
    assert!(!f.should_skip(".env", None, None));
    assert!(f.should_skip("prod.env", None, None));
}

#[test]
fn glob_matches_path_relative_to_working_directory() {
    let f = filter_from(AppConfig {
        skip_globs: vec!["build/*.o".into()],
        ..bare()
    });
    assert!(!f.should_skip("/work/proj/build/a.o", None, None));
    assert!(f.should_skip("/work/proj/build/a.o", Some("/work/proj"), None));
    assert!(!f.should_skip("/work/proj/build/a.o", Some("/elsewhere"), None));
}

#[test]
fn single_star_stays_within_one_component() {
    let f = filter_from(AppConfig {
        skip_globs: vec!["src/*.rs".into()],
        ..bare()
    });
    assert!(f.should_skip("src/main.rs", None, None));
    assert!(!f.should_skip("src/bin/main.rs", None, None));
}

#[test]
fn directory_pruned_by_trailing_double_star_glob() {
    let f = filter_from(AppConfig {
        skip_globs: vec!["**/target/**".into()],
        ..bare()
    });
    assert!(f.should_skip_dir("proj/target", None));
    assert!(!f.should_skip_dir("proj/src", None));
}

#[test]
fn directory_pruned_by_hidden_or_blocked_name() {
    let f = filter_from(AppConfig::default());
    assert!(f.should_skip_dir("proj/.github", None));
    assert!(f.should_skip_dir("proj/node_modules", None));
    assert!(f.should_skip_dir("proj/NODE_MODULES", None));
    assert!(!f.should_skip_dir("proj/src", None));
}

#[test]
fn directory_rule_ignores_extensions_and_patterns() {
    let f = filter_from(AppConfig::default());
    assert!(!f.should_skip_dir("proj/cache.lock", None));
    assert!(!f.should_skip_dir("proj/test_data.rs", None));
}

#[test]
fn binary_content_is_skipped_when_enabled() {
    let png: Vec<u8> = vec![0x89, b'P', b'N', b'G', 0x0D, 0x0A, 0x1A, 0x0A, 1, 2, 3];
    let text: Vec<u8> = b"fn main() {}\n".to_vec();
    let with_zero: Vec<u8> = vec![b'a', 0, b'b'];
    let f = filter_from(AppConfig {
        skip_binary: true,
        ..bare()
    });
    assert!(f.should_skip("logo.dat", None, Some(&png[..])));
    assert!(f.should_skip("blob.dat", None, Some(&with_zero[..])));
    assert!(!f.should_skip("main.rs", None, Some(&text[..])));
    let g = filter_from(bare());
    assert!(!g.should_skip("logo.dat", None, Some(&png[..])));
}

#[test]
fn path_rules_leave_content_aside() {
    let f = filter_from(AppConfig::default());
    assert!(f.matches_path_rules("Cargo.lock", None));
    assert!(!f.matches_path_rules("src/main.rs", None));
    assert!(f.skip_binary());
}
