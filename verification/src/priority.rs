//! Priority scoring: maps a file path and its depth under the scan root to an
//! integer priority. Higher scores are included first when a token budget is
//! allocated.
use vstd::prelude::*;

verus! {

use crate::text::{
    lower_seq,
    seq_contains,
    seq_starts_with,
    seq_ends_with,
    after_last,
    before_first,
    chars_of,
    lower_chars,
    after_last_exec,
    before_first_exec,
    sub_chars,
    contains_chars,
    starts_with_chars,
    ends_with_chars,
    chars_eq,
    chars_eq_str,
};

/// The lower-cased file name begins with "readme".
pub open spec fn spec_is_readme(file_name: Seq<char>) -> bool {
    seq_starts_with(file_name, "readme"@)
}

/// The file name's stem: everything before the first dot.
pub open spec fn spec_stem(file_name: Seq<char>) -> Seq<char> {
    before_first(file_name, '.')
}

/// The lower-cased file name is an entry-point convention.
pub open spec fn spec_is_entry_point(file_name: Seq<char>) -> bool {
    let stem = spec_stem(file_name);
    stem == "main"@ || stem == "index"@ || stem == "app"@ || stem == "lib"@ || stem == "mod"@
}

/// The lower-cased file name follows a known configuration convention.
pub open spec fn spec_is_config(file_name: Seq<char>) -> bool {
    let stem = spec_stem(file_name);
    stem == "config"@ || stem == "settings"@ || stem == "package"@ || stem == "cargo"@ || stem
        == "tsconfig"@ || stem == "webpack"@ || stem == "vite"@ || stem == "eslint"@ || stem
        == "prettier"@ || stem == "jest"@ || stem == "pyproject"@ || stem == "setup"@ || stem
        == "makefile"@ || stem == "dockerfile"@ || stem == "docker-compose"@ || stem == "go"@
        || seq_ends_with(file_name, ".toml"@) || seq_ends_with(file_name, ".yaml"@)
        || seq_ends_with(file_name, ".yml"@) || (seq_ends_with(file_name, ".json"@)
        && !seq_contains(file_name, "test"@))
}

/// The lower-cased relative path or file name carries a test marker.
pub open spec fn spec_is_test(path: Seq<char>, file_name: Seq<char>) -> bool {
    seq_contains(path, "test"@) || seq_contains(path, "spec"@) || seq_contains(file_name, "test"@)
        || seq_contains(file_name, "spec"@)
}

/// The lower-cased relative path carries a fixture / generated-content marker.
pub open spec fn spec_is_fixture(path: Seq<char>) -> bool {
    seq_contains(path, "fixture"@) || seq_contains(path, "testdata"@) || seq_contains(
        path,
        "test_data"@,
    ) || seq_contains(path, "__snapshots__"@) || seq_contains(path, "generated"@) || seq_contains(
        path,
        "vendor"@,
    )
}

/// The path relative to the scan root: the remainder after `base` and a
/// slash, or the path itself where it does not start so.
pub open spec fn spec_rel_path(path: Seq<char>, base: Seq<char>) -> Seq<char> {
    if path == base {
        Seq::empty()
    } else if seq_starts_with(path, base.push('/')) {
        path.subrange(base.len() as int + 1, path.len() as int)
    } else {
        path
    }
}

/// How many slash-separated non-empty segments remain of `s`, with `in_seg`
/// saying whether a segment is already open.
pub open spec fn seg_count_from(s: Seq<char>, in_seg: bool) -> nat
    decreases s.len(),
{
    if s.len() == 0 {
        0
    } else if s[0] == '/' {
        seg_count_from(s.drop_first(), false)
    } else if in_seg {
        seg_count_from(s.drop_first(), true)
    } else {
        1 + seg_count_from(s.drop_first(), true)
    }
}

/// The depth of a relative file path: its directory levels below the root.
pub open spec fn spec_depth(rel: Seq<char>) -> nat {
    let segs = seg_count_from(rel, false);
    if segs == 0 {
        0
    } else {
        (segs - 1) as nat
    }
}

/// The priority score of a path under a scan root. Categories are checked in
/// a fixed precedence: fixture markers first (5), then test markers (30),
/// then READMEs (100), entry points (90), configuration files (80); anything
/// else scores 70 minus 10 per directory level, never below 10.
pub open spec fn spec_score(path: Seq<char>, base: Seq<char>) -> int {
    let file_name = lower_seq(after_last(path, '/'));
    let rel = spec_rel_path(path, base);
    let rel_lower = lower_seq(rel);
    let depth = spec_depth(rel);
    if spec_is_fixture(rel_lower) {
        5
    } else if spec_is_test(rel_lower, file_name) {
        30
    } else if spec_is_readme(file_name) {
        100
    } else if spec_is_entry_point(file_name) {
        90
    } else if spec_is_config(file_name) {
        80
    } else if depth < 6 {
        70 - 10 * depth
    } else {
        10
    }
}

fn is_readme(file_name: &Vec<char>) -> (r: bool)
    ensures
        r == spec_is_readme(file_name@),
{
    let p = chars_of("readme");
    starts_with_chars(file_name, &p)
}

fn is_entry_point(file_name: &Vec<char>) -> (r: bool)
    ensures
        r == spec_is_entry_point(file_name@),
{
    let stem = before_first_exec(file_name, '.');
    chars_eq_str(&stem, "main") || chars_eq_str(&stem, "index") || chars_eq_str(&stem, "app")
        || chars_eq_str(&stem, "lib") || chars_eq_str(&stem, "mod")
}

fn is_config(file_name: &Vec<char>) -> (r: bool)
    ensures
        r == spec_is_config(file_name@),
{
    let stem = before_first_exec(file_name, '.');
    if chars_eq_str(&stem, "config") || chars_eq_str(&stem, "settings") || chars_eq_str(
        &stem,
        "package",
    ) || chars_eq_str(&stem, "cargo") || chars_eq_str(&stem, "tsconfig") || chars_eq_str(
        &stem,
        "webpack",
    ) || chars_eq_str(&stem, "vite") || chars_eq_str(&stem, "eslint") || chars_eq_str(
        &stem,
        "prettier",
    ) || chars_eq_str(&stem, "jest") || chars_eq_str(&stem, "pyproject") || chars_eq_str(
        &stem,
        "setup",
    ) || chars_eq_str(&stem, "makefile") || chars_eq_str(&stem, "dockerfile") || chars_eq_str(
        &stem,
        "docker-compose",
    ) || chars_eq_str(&stem, "go") {
        return true;
    }
    let toml = chars_of(".toml");
    let yaml = chars_of(".yaml");
    let yml = chars_of(".yml");
    let json = chars_of(".json");
    let test = chars_of("test");
    ends_with_chars(file_name, &toml) || ends_with_chars(file_name, &yaml) || ends_with_chars(
        file_name,
        &yml,
    ) || (ends_with_chars(file_name, &json) && !contains_chars(file_name, &test))
}

fn is_test(path: &Vec<char>, file_name: &Vec<char>) -> (r: bool)
    ensures
        r == spec_is_test(path@, file_name@),
{
    let test = chars_of("test");
    let spc = chars_of("spec");
    contains_chars(path, &test) || contains_chars(path, &spc) || contains_chars(file_name, &test)
        || contains_chars(file_name, &spc)
}

fn is_fixture(path: &Vec<char>) -> (r: bool)
    ensures
        r == spec_is_fixture(path@),
{
    let a = chars_of("fixture");
    let b = chars_of("testdata");
    let c = chars_of("test_data");
    let d = chars_of("__snapshots__");
    let e = chars_of("generated");
    let f = chars_of("vendor");
    contains_chars(path, &a) || contains_chars(path, &b) || contains_chars(path, &c)
        || contains_chars(path, &d) || contains_chars(path, &e) || contains_chars(path, &f)
}

/// The slash-separated non-empty segment count of `v`.
fn seg_count(v: &Vec<char>) -> (r: usize)
    ensures
        r == seg_count_from(v@, false),
{
    let mut count: usize = 0;
    let mut in_seg = false;
    let mut i: usize = 0;
    proof {
        assert(v@.subrange(0, v@.len() as int) =~= v@);
    }
    while i < v.len()
        invariant
            0 <= i <= v@.len(),
            count <= i,
            seg_count_from(v@, false) == count + seg_count_from(
                v@.subrange(i as int, v@.len() as int),
                in_seg,
            ),
        decreases v@.len() - i,
    {
        proof {
            assert(v@.subrange(i as int, v@.len() as int).drop_first() =~= v@.subrange(
                i + 1,
                v@.len() as int,
            ));
        }
        if v[i] == '/' {
            in_seg = false;
        } else {
            if !in_seg {
                count = count + 1;
            }
            in_seg = true;
        }
        i = i + 1;
    }
    proof {
        assert(v@.subrange(v@.len() as int, v@.len() as int) =~= Seq::<char>::empty());
    }
    count
}

/// Score a file for priority ordering in token budget allocation.
///
/// Higher scores mean higher priority: the file is admitted to the budget
/// earlier. Category precedence is fixed; a README inside a fixtures
/// directory scores as a fixture, not as a README.
pub fn score_file(path: &str, base_path: &str) -> (r: u32)
    ensures
        r == spec_score(path@, base_path@),
{
    let pv = chars_of(path);
    let file_name_raw = after_last_exec(&pv, '/');
    let file_name = lower_chars(&file_name_raw);
    let bv = chars_of(base_path);
    let rel: Vec<char> = if chars_eq(&pv, &bv) {
        Vec::new()
    } else {
        let mut prefix = chars_of(base_path);
        prefix.push('/');
        proof {
            assert(prefix@ =~= bv@.push('/'));
        }
        if starts_with_chars(&pv, &prefix) {
            let pn = pv.len();
            proof {
                assert(prefix@.len() == bv@.len() + 1);
                assert(prefix@.len() <= pn);
            }
            sub_chars(&pv, bv.len() + 1, pn)
        } else {
            let whole = sub_chars(&pv, 0, pv.len());
            proof {
                assert(whole@ =~= pv@);
            }
            whole
        }
    };
    let rel_lower = lower_chars(&rel);
    if is_fixture(&rel_lower) {
        return 5;
    }
    if is_test(&rel_lower, &file_name) {
        return 30;
    }
    if is_readme(&file_name) {
        return 100;
    }
    if is_entry_point(&file_name) {
        return 90;
    }
    if is_config(&file_name) {
        return 80;
    }
    let segs = seg_count(&rel);
    let depth: usize = if segs == 0 {
        0
    } else {
        segs - 1
    };
    if depth < 6 {
        70 - 10 * (depth as u32)
    } else {
        10
    }
}

/// Category precedence: the fixture check comes first, so a fixture path
/// scores 5 whatever its file name would otherwise score; a README under a
/// fixtures directory scores as a fixture, not as a README.
pub proof fn lemma_fixture_precedence(path: Seq<char>, base: Seq<char>)
    ensures
        spec_is_fixture(lower_seq(spec_rel_path(path, base))) ==> spec_score(path, base) == 5,
        spec_score(path, base) == 100 ==> !spec_is_fixture(lower_seq(spec_rel_path(path, base))),
{
}

} // verus!
