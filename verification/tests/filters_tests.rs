use flat::filters::{is_binary_extension, is_secret_file};

#[test]
fn test_secret_file_detection() {
    assert!(is_secret_file(".env"));
    assert!(is_secret_file(".env.local"));
    assert!(is_secret_file(".env.production"));
    assert!(is_secret_file("credentials.json"));
    assert!(is_secret_file("id_rsa"));
    assert!(is_secret_file("my.key"));
    assert!(is_secret_file("cert.pem"));
    assert!(is_secret_file("my-secret-file.txt"));
    assert!(is_secret_file("passwords.txt"));

    assert!(!is_secret_file("main.rs"));
    assert!(!is_secret_file("config.toml"));
}

#[test]
fn test_binary_extension_detection() {
    assert!(is_binary_extension("image.png"));
    assert!(is_binary_extension("logo.jpg"));
    assert!(is_binary_extension("output.wasm"));
    assert!(is_binary_extension("archive.zip"));
    assert!(is_binary_extension("binary.exe"));

    assert!(!is_binary_extension("main.rs"));
    assert!(!is_binary_extension("config.toml"));
    assert!(!is_binary_extension("README.md"));
}
