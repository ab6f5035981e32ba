use flat::config::{Config, GlobPattern};
use flat::filters::SkipReason;
use flat::walker::should_skip;

#[test]
fn test_should_skip_secret() {
    let config = Config::default();
    assert_eq!(should_skip(".env", &config), Some(SkipReason::Secret));
    assert_eq!(
        should_skip("credentials.json", &config),
        Some(SkipReason::Secret)
    );
}

#[test]
fn test_should_skip_binary_extension() {
    let config = Config::default();
    assert_eq!(should_skip("image.png", &config), Some(SkipReason::Binary));
    assert_eq!(should_skip("binary.exe", &config), Some(SkipReason::Binary));
}

#[test]
fn test_should_skip_extension_filter() {
    let config = Config {
        include_extensions: Some(vec!["rs".to_string()]),
        ..Default::default()
    };

    assert_eq!(
        should_skip("file.json", &config),
        Some(SkipReason::Extension)
    );
    assert_eq!(should_skip("file.rs", &config), None);
}

#[test]
fn test_should_skip_match_filter() {
    let config = Config {
        match_patterns: Some(vec![GlobPattern::new("*_test.go").unwrap()]),
        ..Default::default()
    };

    assert_eq!(should_skip("main.go", &config), Some(SkipReason::Match));
    assert_eq!(should_skip("user_test.go", &config), None);
}
