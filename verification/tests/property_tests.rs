use flat::compress::{compress_source, CompressLanguage, CompressResult};
use flat::config::Config;
use flat::output::Statistics;
use flat::tokens::estimate_tokens;
use flat::walker::{plan_budget, sort_candidates, FileCandidate, FileDecision};

fn cand(path: &str, content: &str, score: u32) -> FileCandidate {
    FileCandidate {
        path: path.to_string(),
        content: content.to_string(),
        score,
        is_prose: false,
    }
}

fn decision_tag(d: &FileDecision) -> (u8, Option<String>) {
    match d {
        FileDecision::IncludeFull(s) => (0, Some(s.clone())),
        FileDecision::IncludeCompressed(s) => (1, Some(s.clone())),
        FileDecision::Excluded => (2, None),
    }
}

#[test]
fn compressing_compressed_output_is_stable() {
    // Idempotence: compressing already-compressed output never re-expands.
    let source = "fn hello(name: &str) -> String {\n    let g = format(name);\n    g\n}";
    let first = match compress_source(source, CompressLanguage::Rust) {
        CompressResult::Compressed(out) => out,
        CompressResult::Fallback(_, r) => panic!("expected compression, got fallback: {:?}", r),
    };
    assert!(first.len() < source.len());
    let second = match compress_source(&first, CompressLanguage::Rust) {
        CompressResult::Compressed(out) => out,
        CompressResult::Fallback(_, r) => panic!("expected compression, got fallback: {:?}", r),
    };
    assert!(second.len() <= first.len());
}

#[test]
fn shrink_or_identity_on_tiny_input() {
    // A file already at its minimum comes back unchanged, still Compressed.
    let source = "fn a() {}\n";
    match compress_source(source, CompressLanguage::Rust) {
        CompressResult::Compressed(out) => {
            assert!(out.len() < source.len() || out == source);
        }
        CompressResult::Fallback(_, r) => panic!("expected compression, got fallback: {:?}", r),
    }
}

#[test]
fn fallback_carries_original_verbatim() {
    let source = "fn broken( {\n    this is not valid rust\n}\n";
    match compress_source(source, CompressLanguage::Rust) {
        CompressResult::Compressed(_) => panic!("broken input should fall back"),
        CompressResult::Fallback(content, reason) => {
            assert_eq!(content, source);
            assert!(reason.is_some());
        }
    }
}

#[test]
fn empty_compressed_output_falls_back_with_reason() {
    // A lone expression statement is classified by no table entry, so the
    // compressed output is empty and the original comes back.
    let source = "foo();\n";
    match compress_source(source, CompressLanguage::TypeScript) {
        CompressResult::Compressed(_) => panic!("expected fallback"),
        CompressResult::Fallback(content, reason) => {
            assert_eq!(content, source);
            assert_eq!(reason.unwrap(), "compressed output is empty");
        }
    }
}

#[test]
fn example_signature_compression() {
    let source = "fn hello(name: &str) -> String {\n let g = format(name);\n g\n}";
    match compress_source(source, CompressLanguage::Rust) {
        CompressResult::Compressed(out) => {
            assert!(out.contains("fn hello(name: &str) -> String"));
            assert!(out.ends_with("{ ... }"));
            assert!(!out.contains("format"));
            assert!(!out.contains("let g"));
        }
        CompressResult::Fallback(_, r) => panic!("expected compression, got fallback: {:?}", r),
    }
}

#[test]
fn allocation_is_deterministic() {
    let mk = || {
        vec![
            cand("/p/readme.md", "# hello\nsome words here\n", 100),
            cand("/p/src/main.rs", "fn main() {\n    println(1);\n}\n", 90),
            cand("/p/notes.txt", &"x".repeat(400), 60),
        ]
    };
    let config = Config {
        compress: true,
        token_budget: Some(20),
        ..Default::default()
    };
    let mut c1 = mk();
    let mut c2 = mk();
    sort_candidates(&mut c1);
    sort_candidates(&mut c2);
    let mut s1 = Statistics::new();
    let mut s2 = Statistics::new();
    let d1 = plan_budget(&config, &c1, 20, &mut s1);
    let d2 = plan_budget(&config, &c2, 20, &mut s2);
    let t1: Vec<_> = d1.iter().map(decision_tag).collect();
    let t2: Vec<_> = d2.iter().map(decision_tag).collect();
    assert_eq!(t1, t2);
    assert_eq!(s1.tokens_used, s2.tokens_used);
    assert_eq!(s1.compressed_files, s2.compressed_files);
    assert_eq!(s1.excluded_by_budget, s2.excluded_by_budget);
}

#[test]
fn budget_is_conserved() {
    let mut cands = vec![
        cand("/p/a.txt", &"a".repeat(90), 70),
        cand("/p/b.txt", &"b".repeat(90), 60),
        cand("/p/c.txt", &"c".repeat(90), 50),
    ];
    sort_candidates(&mut cands);
    let config = Config::default();
    let mut stats = Statistics::new();
    let budget = 45;
    let decisions = plan_budget(&config, &cands, budget, &mut stats);
    let mut included = 0;
    for (i, d) in decisions.iter().enumerate() {
        match d {
            FileDecision::IncludeFull(s) => {
                included += estimate_tokens(s, cands[i].is_prose);
            }
            FileDecision::IncludeCompressed(s) => {
                included += estimate_tokens(s, cands[i].is_prose);
            }
            FileDecision::Excluded => {}
        }
    }
    assert!(included <= budget);
    assert_eq!(stats.tokens_used, included);
    // 90 bytes = 30 tokens each: two fit in 45? 30 + 30 > 45, so only one.
    assert_eq!(stats.excluded_by_budget.len(), 2);
}

#[test]
fn zero_budget_excludes_everything() {
    let mut cands = vec![
        cand("/p/a.rs", "fn a() { let x = 1; }\n", 70),
        cand("/p/b.md", "# heading\nwords words words\n", 60),
    ];
    sort_candidates(&mut cands);
    let config = Config {
        compress: true,
        token_budget: Some(0),
        ..Default::default()
    };
    let mut stats = Statistics::new();
    let decisions = plan_budget(&config, &cands, 0, &mut stats);
    for d in decisions.iter() {
        assert!(matches!(d, FileDecision::Excluded));
    }
    assert_eq!(stats.excluded_by_budget.len(), 2);
    assert_eq!(stats.tokens_used, 0);
}

#[test]
fn broken_file_under_budget_falls_back_verbatim() {
    // A syntactically broken file still goes out in full when it fits.
    let broken = "fn broken( {\n    this is not valid rust\n}\n";
    let mut cands = vec![cand("/p/broken.rs", broken, 70)];
    sort_candidates(&mut cands);
    let config = Config {
        compress: true,
        token_budget: Some(1000),
        ..Default::default()
    };
    let mut stats = Statistics::new();
    let decisions = plan_budget(&config, &cands, 1000, &mut stats);
    assert_eq!(decisions.len(), 1);
    match &decisions[0] {
        FileDecision::IncludeFull(s) => assert_eq!(s, broken),
        _ => panic!("expected the original to be included in full"),
    }
    assert_eq!(stats.compressed_files, 0);
}

#[test]
fn sort_orders_by_score_then_path() {
    let mut cands = vec![
        cand("/p/z.rs", "a", 70),
        cand("/p/a.rs", "b", 70),
        cand("/p/readme.md", "c", 100),
    ];
    sort_candidates(&mut cands);
    assert_eq!(cands[0].path, "/p/readme.md");
    assert_eq!(cands[1].path, "/p/a.rs");
    assert_eq!(cands[2].path, "/p/z.rs");
}

#[test]
fn full_match_files_are_never_compressed() {
    let source = "fn main() {\n    let value = 42;\n    println(value);\n}\n";
    let config = Config {
        compress: true,
        full_match_patterns: Some(vec![flat::config::GlobPattern::new("main.rs").unwrap()]),
        ..Default::default()
    };
    let plan = flat::walker::plan_file_output(&config, "/p/src/main.rs", source);
    assert_eq!(plan.body, source);
    assert_eq!(plan.mode.as_deref(), Some("full"));
    assert!(!plan.compressed);
    assert!(plan.warning.is_none());

    let other = flat::walker::plan_file_output(&config, "/p/src/other.rs", source);
    assert_eq!(other.mode.as_deref(), Some("compressed"));
    assert!(other.compressed);
    assert!(other.body.contains("fn main() { ... }"));
    assert!(other.warning.is_none());
}

#[test]
fn fallback_surfaces_its_warning() {
    // A broken file goes out in full, under the "full" tag, and the reason
    // is surfaced for the caller to print.
    let broken = "fn broken( {\n    this is not valid rust\n}\n";
    let config = Config {
        compress: true,
        ..Default::default()
    };
    let plan = flat::walker::plan_file_output(&config, "/p/broken.rs", broken);
    assert_eq!(plan.body, broken);
    assert_eq!(plan.mode.as_deref(), Some("full"));
    assert!(!plan.compressed);
    assert!(plan.warning.unwrap().contains("ERROR"));
}

#[test]
fn step_allocation_matches_whole_allocation() {
    // Driving the allocator one candidate at a time yields the same
    // decisions and statistics as the one-call pass, and surfaces the
    // fallback warning for a broken file.
    let broken = "fn broken( {\n    this is not valid rust\n}\n";
    let mk = || {
        vec![
            cand("/p/readme.md", "# hello\nsome words here\n", 100),
            cand("/p/broken.rs", broken, 70),
            cand("/p/big.txt", &"x".repeat(600), 60),
        ]
    };
    let config = Config {
        compress: true,
        token_budget: Some(30),
        ..Default::default()
    };
    let mut c1 = mk();
    let mut c2 = mk();
    sort_candidates(&mut c1);
    sort_candidates(&mut c2);
    let mut s1 = Statistics::new();
    let mut s2 = Statistics::new();
    let whole = plan_budget(&config, &c1, 30, &mut s1);

    let mut remaining = 30;
    let mut stepped = Vec::new();
    let mut warnings = Vec::new();
    for candidate in c2.iter() {
        let (d, rem, warning) = flat::walker::plan_budget_step(&config, candidate, remaining, &mut s2);
        if let Some(w) = warning {
            warnings.push((candidate.path.clone(), w));
        }
        remaining = rem;
        stepped.push(d);
    }

    let t1: Vec<_> = whole.iter().map(decision_tag).collect();
    let t2: Vec<_> = stepped.iter().map(decision_tag).collect();
    assert_eq!(t1, t2);
    assert_eq!(s1.tokens_used, s2.tokens_used);
    assert_eq!(s1.compressed_files, s2.compressed_files);
    assert_eq!(s1.excluded_by_budget, s2.excluded_by_budget);
    assert_eq!(warnings.len(), 1);
    assert_eq!(warnings[0].0, "/p/broken.rs");
    assert!(warnings[0].1.contains("ERROR"));
}
