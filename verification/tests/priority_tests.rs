use flat::priority::score_file;

fn score(path: &str) -> u32 {
    score_file(path, "/project")
}

#[test]
fn test_readme_highest() {
    assert_eq!(score("/project/README.md"), 100);
    assert_eq!(score("/project/readme.txt"), 100);
}

#[test]
fn test_entry_points() {
    assert_eq!(score("/project/src/main.rs"), 90);
    assert_eq!(score("/project/src/index.ts"), 90);
    assert_eq!(score("/project/src/lib.rs"), 90);
}

#[test]
fn test_config_files() {
    assert_eq!(score("/project/Cargo.toml"), 80);
    assert_eq!(score("/project/package.json"), 80);
}

#[test]
fn test_source_with_depth_penalty() {
    // depth 0 (file at root)
    assert_eq!(score("/project/foo.rs"), 70);
    // depth 1
    assert_eq!(score("/project/src/foo.rs"), 60);
    // depth 2
    assert_eq!(score("/project/src/utils/foo.rs"), 50);
    // depth 6+ -> min 10
    assert_eq!(score("/project/a/b/c/d/e/f/foo.rs"), 10);
}

#[test]
fn test_tests_scored_low() {
    assert_eq!(score("/project/tests/unit_test.rs"), 30);
    assert_eq!(score("/project/src/foo_test.go"), 30);
}

#[test]
fn test_fixtures_lowest() {
    assert_eq!(score("/project/tests/fixtures/data.json"), 5);
    assert_eq!(score("/project/testdata/input.txt"), 5);
}

#[test]
fn test_readme_in_subdirectory() {
    // README in tests/fixtures/ -> fixture (5), not README (100)
    assert_eq!(score("/project/tests/fixtures/README.md"), 5);
}

#[test]
fn test_sorting_order() {
    let base = "/project";
    let mut files = [
        String::from("/project/tests/fixture/data.json"),
        String::from("/project/src/utils.rs"),
        String::from("/project/README.md"),
        String::from("/project/src/main.rs"),
        String::from("/project/Cargo.toml"),
        String::from("/project/tests/test_foo.rs"),
    ];

    files.sort_by(|a, b| {
        let sa = score_file(a, base);
        let sb = score_file(b, base);
        sb.cmp(&sa).then_with(|| a.cmp(b))
    });

    let names: Vec<&str> = files
        .iter()
        .map(|p| p.rsplit('/').next().unwrap())
        .collect();
    assert_eq!(names[0], "README.md");
    assert_eq!(names[1], "main.rs");
    assert_eq!(names[2], "Cargo.toml");
}
