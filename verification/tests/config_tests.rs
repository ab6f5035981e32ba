use flat::config::{Config, GlobPattern};

#[test]
fn test_include_only() {
    let config = Config {
        include_extensions: Some(vec!["rs".to_string(), "toml".to_string()]),
        ..Default::default()
    };

    assert!(config.should_include_extension("rs"));
    assert!(config.should_include_extension("toml"));
    assert!(!config.should_include_extension("json"));
}

#[test]
fn test_exclude_only() {
    let config = Config {
        exclude_extensions: Some(vec!["test".to_string(), "json".to_string()]),
        ..Default::default()
    };

    assert!(config.should_include_extension("rs"));
    assert!(!config.should_include_extension("test"));
    assert!(!config.should_include_extension("json"));
}

#[test]
fn test_include_and_exclude() {
    let config = Config {
        include_extensions: Some(vec!["rs".to_string(), "toml".to_string()]),
        exclude_extensions: Some(vec!["toml".to_string()]),
        ..Default::default()
    };

    assert!(config.should_include_extension("rs"));
    assert!(!config.should_include_extension("toml")); // Excluded even though included
    assert!(!config.should_include_extension("json"));
}

#[test]
fn test_match_no_patterns() {
    let config = Config::default();
    assert!(config.should_include_by_match("anything.rs"));
}

#[test]
fn test_match_single_pattern() {
    let config = Config {
        match_patterns: Some(vec![GlobPattern::new("*_test.go").unwrap()]),
        ..Default::default()
    };

    assert!(config.should_include_by_match("user_test.go"));
    assert!(config.should_include_by_match("auth_test.go"));
    assert!(!config.should_include_by_match("main.go"));
    assert!(!config.should_include_by_match("test.rs"));
}

#[test]
fn test_match_multiple_patterns() {
    let config = Config {
        match_patterns: Some(vec![
            GlobPattern::new("*_test.go").unwrap(),
            GlobPattern::new("*.spec.js").unwrap(),
        ]),
        ..Default::default()
    };

    assert!(config.should_include_by_match("user_test.go"));
    assert!(config.should_include_by_match("button.spec.js"));
    assert!(!config.should_include_by_match("main.go"));
}
