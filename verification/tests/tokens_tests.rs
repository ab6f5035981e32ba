use flat::tokens::{estimate_tokens, is_prose_extension};

#[test]
fn test_estimate_tokens_code() {
    // 300 bytes of code = 100 tokens (300/3)
    let code = "x".repeat(300);
    assert_eq!(estimate_tokens(&code, false), 100);
}

#[test]
fn test_estimate_tokens_prose() {
    // 400 bytes of prose = 100 tokens (400/4)
    let prose = "x".repeat(400);
    assert_eq!(estimate_tokens(&prose, true), 100);
}

#[test]
fn test_estimate_tokens_empty() {
    assert_eq!(estimate_tokens("", false), 0);
    assert_eq!(estimate_tokens("", true), 0);
}

#[test]
fn test_is_prose_extension() {
    assert!(is_prose_extension("md"));
    assert!(is_prose_extension("txt"));
    assert!(is_prose_extension("rst"));
    assert!(!is_prose_extension("rs"));
    assert!(!is_prose_extension("py"));
    assert!(!is_prose_extension("ts"));
}
