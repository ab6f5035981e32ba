//! Run configuration: which extensions and file-name patterns are admitted,
//! how large a file may be, and the output and compression switches.
use vstd::prelude::*;

verus! {

use crate::text::{lower_seq, lower_chars_of, chars_eq};

#[verifier::external_type_specification]
#[verifier::external_body]
pub struct ExGlobMatcher(globset::GlobMatcher);

/// Whether a glob matcher compiled by globset from `pattern` matches `name`.
/// The match is a function of the pattern and the name alone.
pub uninterp spec fn glob_match(pattern: Seq<char>, name: Seq<char>) -> bool;

/// A glob pattern together with the matcher compiled from it. The fields are
/// private, so every value comes from `GlobPattern::new` and the matcher is
/// always the one compiled from the stored text; a pattern's view is that
/// text, and contracts speak of it.
pub struct GlobPattern {
    text: String,
    matcher: globset::GlobMatcher,
}

impl View for GlobPattern {
    type V = Seq<char>;

    closed spec fn view(&self) -> Seq<char> {
        self.text@
    }
}

/// Relies on globset::Glob::new and Glob::compile_matcher: compiles
/// `pattern`, `None` where the pattern is not valid glob syntax.
#[verifier::external_body]
fn compile_glob(pattern: &str) -> (r: Option<GlobPattern>)
    ensures
        (r matches Some(g) ==> g@ == pattern@),
{
    match globset::Glob::new(pattern) {
        Ok(g) => Some(
            GlobPattern { text: pattern.to_string(), matcher: g.compile_matcher() },
        ),
        Err(_) => None,
    }
}

/// Relies on globset::GlobMatcher::is_match: whether the compiled pattern
/// matches the name, a function of the pattern text and the name alone.
#[verifier::external_body]
fn matcher_is_match(g: &GlobPattern, name: &str) -> (r: bool)
    ensures
        r == glob_match(g@, name@),
{
    g.matcher.is_match(name)
}

impl GlobPattern {
    /// Compiles `pattern`; `None` where it is not valid glob syntax.
    pub fn new(pattern: &str) -> (r: Option<GlobPattern>)
        ensures
            (r matches Some(g) ==> g@ == pattern@),
    {
        compile_glob(pattern)
    }

    /// Whether this pattern matches `name`.
    pub fn matches(&self, name: &str) -> (r: bool)
        ensures
            r == glob_match(self@, name@),
    {
        matcher_is_match(self, name)
    }
}

pub struct Config {
    pub path: String,
    pub include_extensions: Option<Vec<String>>,
    pub exclude_extensions: Option<Vec<String>>,
    pub match_patterns: Option<Vec<GlobPattern>>,
    pub output_file: Option<String>,
    pub dry_run: bool,
    pub stats_only: bool,
    pub gitignore_path: Option<String>,
    pub max_file_size: u64,
    pub compress: bool,
    pub full_match_patterns: Option<Vec<GlobPattern>>,
    pub token_budget: Option<usize>,
}

impl Default for Config {
    /// The default run: current directory, nothing filtered, at most one
    /// mebibyte per file, no compression, no budget.
    fn default() -> (c: Config)
        ensures
            c.path@ == "."@,
            c.include_extensions is None,
            c.exclude_extensions is None,
            c.match_patterns is None,
            c.output_file is None,
            !c.dry_run,
            !c.stats_only,
            c.gitignore_path is None,
            c.max_file_size == 1048576,
            !c.compress,
            c.full_match_patterns is None,
            c.token_budget is None,
    {
        Config {
            path: String::from_str("."),
            include_extensions: None,
            exclude_extensions: None,
            match_patterns: None,
            output_file: None,
            dry_run: false,
            stats_only: false,
            gitignore_path: None,
            max_file_size: 1048576,
            compress: false,
            full_match_patterns: None,
            token_budget: None,
        }
    }
}

/// Some entry of `list` equals `ext` up to ASCII case.
pub open spec fn spec_ext_listed(list: Seq<String>, ext: Seq<char>) -> bool {
    exists|i: int| 0 <= i < list.len() && lower_seq(#[trigger] list[i]@) == lower_seq(ext)
}

/// The extension passes the include list (when one is set) and is absent
/// from the exclude list (when one is set).
pub open spec fn spec_should_include_extension(c: Config, ext: Seq<char>) -> bool {
    (match c.include_extensions {
        Some(list) => spec_ext_listed(list@, ext),
        None => true,
    }) && (match c.exclude_extensions {
        Some(list) => !spec_ext_listed(list@, ext),
        None => true,
    })
}

/// Some pattern of `ps` matches `name`.
pub open spec fn spec_any_glob_matches(ps: Seq<GlobPattern>, name: Seq<char>) -> bool {
    exists|i: int| 0 <= i < ps.len() && glob_match((#[trigger] ps[i])@, name)
}

/// The file name passes the match filter: no patterns are set, or at least
/// one matches.
pub open spec fn spec_should_include_by_match(c: Config, name: Seq<char>) -> bool {
    match c.match_patterns {
        Some(ps) => spec_any_glob_matches(ps@, name),
        None => true,
    }
}

/// The file name is pinned to full content: full-match patterns are set and
/// at least one matches.
pub open spec fn spec_is_full_match(c: Config, name: Seq<char>) -> bool {
    match c.full_match_patterns {
        Some(ps) => spec_any_glob_matches(ps@, name),
        None => false,
    }
}

fn any_glob_matches(ps: &Vec<GlobPattern>, name: &str) -> (r: bool)
    ensures
        r == spec_any_glob_matches(ps@, name@),
{
    let mut i: usize = 0;
    while i < ps.len()
        invariant
            0 <= i <= ps@.len(),
            forall|j: int| 0 <= j < i ==> !glob_match((#[trigger] ps@[j])@, name@),
        decreases ps@.len() - i,
    {
        if ps[i].matches(name) {
            return true;
        }
        i = i + 1;
    }
    false
}

fn ext_listed(list: &Vec<String>, ext: &str) -> (r: bool)
    ensures
        r == spec_ext_listed(list@, ext@),
{
    let le = lower_chars_of(ext);
    let mut i: usize = 0;
    while i < list.len()
        invariant
            le@ == lower_seq(ext@),
            0 <= i <= list@.len(),
            forall|j: int| 0 <= j < i ==> lower_seq(#[trigger] list@[j]@) != lower_seq(ext@),
        decreases list@.len() - i,
    {
        let li = lower_chars_of(list[i].as_str());
        if chars_eq(&li, &le) {
            return true;
        }
        i = i + 1;
    }
    false
}

impl Config {
    /// Whether a file with extension `ext` passes the extension filters:
    /// when an include list is set the extension must be on it, and when an
    /// exclude list is set the extension must not be, comparing ASCII
    /// case-insensitively.
    pub fn should_include_extension(&self, ext: &str) -> (r: bool)
        ensures
            r == spec_should_include_extension(*self, ext@),
    {
        match &self.include_extensions {
            Some(list) => {
                if !ext_listed(list, ext) {
                    return false;
                }
            },
            None => {},
        }
        match &self.exclude_extensions {
            Some(list) => {
                if ext_listed(list, ext) {
                    return false;
                }
            },
            None => {},
        }
        true
    }

    /// Check if a file name matches any of the configured glob patterns.
    /// Returns true if no patterns are set or if the name matches at least
    /// one pattern.
    pub fn should_include_by_match(&self, file_name: &str) -> (r: bool)
        ensures
            r == spec_should_include_by_match(*self, file_name@),
    {
        match &self.match_patterns {
            Some(ps) => any_glob_matches(ps, file_name),
            None => true,
        }
    }

    /// Check if a file should always get full content (skip compression).
    /// Returns true if full-match patterns are set and the file name matches.
    pub fn is_full_match(&self, file_name: &str) -> (r: bool)
        ensures
            r == spec_is_full_match(*self, file_name@),
    {
        match &self.full_match_patterns {
            Some(ps) => any_glob_matches(ps, file_name),
            None => false,
        }
    }
}

} // verus!
