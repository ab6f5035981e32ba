use flat::filters::SkipReason;
use flat::output::{escape_xml, Statistics};

fn count_for(m: &Vec<(String, usize)>, key: &str) -> Option<usize> {
    for p in m.iter() {
        if p.0 == key {
            return Some(p.1);
        }
    }
    None
}

#[test]
fn test_statistics() {
    let mut stats = Statistics::new();
    stats.add_included(Some("rs"));
    stats.add_included(Some("toml"));
    stats.add_skipped(SkipReason::Binary);
    stats.add_skipped(SkipReason::Secret);
    stats.add_skipped(SkipReason::Binary);

    assert_eq!(stats.total_files, 5);
    assert_eq!(stats.included_files, 2);
    assert_eq!(stats.total_skipped(), 3);
    assert_eq!(count_for(&stats.included_by_extension, "rs"), Some(1));
    assert_eq!(count_for(&stats.included_by_extension, "toml"), Some(1));
}

#[test]
fn test_escape_xml() {
    assert_eq!(escape_xml("hello"), "hello");
    assert_eq!(escape_xml("<tag>"), "&lt;tag&gt;");
    assert_eq!(escape_xml("a & b"), "a &amp; b");
    assert_eq!(escape_xml("\"quoted\""), "&quot;quoted&quot;");
}

#[test]
fn summary_counts_and_breakdown() {
    let mut stats = Statistics::new();
    stats.add_included(Some("rs"));
    stats.add_included(Some("toml"));
    stats.add_skipped(SkipReason::Binary);
    stats.add_skipped(SkipReason::Secret);
    stats.add_skipped(SkipReason::Binary);
    let summary = stats.format_summary();
    assert_eq!(
        summary,
        "<summary>\nTotal files: 5\nIncluded: 2 (1 .rs, 1 .toml)\nSkipped: 3 (2 binary, 1 secret)\n</summary>\n"
    );
}

#[test]
fn writer_frames_records_and_counts_bytes() {
    let mut w = flat::output::OutputWriter::new();
    w.write_file_content("src/a.rs", "fn a() {}\n");
    let first = w.take_pending();
    assert_eq!(
        String::from_utf8(first).unwrap(),
        "<file path=\"src/a.rs\">\nfn a() {}\n</file>\n\n"
    );
    // a path with XML specials is escaped, and a missing newline is added
    w.write_file_content_with_mode("a&b.rs", "x", Some("full"));
    let second = w.take_pending();
    assert_eq!(
        String::from_utf8(second).unwrap(),
        "<file path=\"a&amp;b.rs\" mode=\"full\">\nx\n</file>\n\n"
    );
    let expected = "<file path=\"src/a.rs\">\nfn a() {}\n</file>\n\n".len()
        + "<file path=\"a&amp;b.rs\" mode=\"full\">\nx\n</file>\n\n".len();
    assert_eq!(w.bytes_written(), expected);
}

#[test]
fn summary_formats_budget_and_sizes() {
    let mut stats = Statistics::new();
    stats.token_budget = Some(12000);
    stats.tokens_used = 11550;
    stats.output_size = 1048576;
    let summary = stats.format_summary();
    assert_eq!(
        summary,
        "<summary>\nTotal files: 0\nIncluded: 0\nToken budget: 11.6k / 12.0k used\nOutput size: 1.00 MB (~262.1k tokens)\n</summary>\n"
    );

    let mut small = Statistics::new();
    small.token_budget = Some(2000);
    small.tokens_used = 1234;
    small.output_size = 512;
    assert_eq!(
        small.format_summary(),
        "<summary>\nTotal files: 0\nIncluded: 0\nToken budget: 1,234 / 2,000 used\nOutput size: 512 bytes (~128 tokens)\n</summary>\n"
    );
}

#[test]
fn skip_reason_labels() {
    assert_eq!(SkipReason::Secret.label(), "secret");
    assert_eq!(SkipReason::Binary.label(), "binary");
    assert_eq!(SkipReason::TooLarge.label(), "too large");
    assert_eq!(SkipReason::Extension.label(), "extension");
    assert_eq!(SkipReason::Gitignore.label(), "gitignore");
    assert_eq!(SkipReason::ReadError.label(), "read error");
    assert_eq!(SkipReason::Match.label(), "match");
}
