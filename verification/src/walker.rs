//! The budget allocator and the per-file decisions of a run: which files go
//! out in which form, under a deterministic priority order and a token
//! ceiling.
use vstd::prelude::*;

verus! {

use vstd::string::StringSliceAdditionalSpecFns;
use vstd::utf8::encode_utf8;
use vstd::multiset::Multiset;
use crate::config::{Config, spec_is_full_match, spec_should_include_by_match};
use crate::compress::{
    CompressResult,
    CompressModel,
    CompressLanguage,
    spec_language_for_path,
    spec_compress_source,
    language_for_path,
    compress_source,
};
use crate::filters::{SkipReason, spec_is_secret_file, spec_is_binary_extension, spec_extension};
use crate::output::Statistics;
use crate::text::{after_last, seq_str_lt, chars_of, after_last_exec, string_from_chars};
use crate::tokens::{estimate_tokens, spec_estimate_tokens};

/// A file candidate with its content and metadata for budget allocation.
pub struct FileCandidate {
    pub path: String,
    pub content: String,
    pub score: u32,
    pub is_prose: bool,
}

/// Result of budget allocation for a single file.
pub enum FileDecision {
    IncludeFull(String),
    IncludeCompressed(String),
    Excluded,
}

/// The byte-level model of one decision.
pub enum DecisionModel {
    Full(Seq<u8>),
    Compressed(Seq<u8>),
    Excluded,
}

/// The model of a decision: its text as its byte encoding.
pub open spec fn decision_view(d: FileDecision) -> DecisionModel {
    match d {
        FileDecision::IncludeFull(s) => DecisionModel::Full(encode_utf8(s@)),
        FileDecision::IncludeCompressed(s) => DecisionModel::Compressed(encode_utf8(s@)),
        FileDecision::Excluded => DecisionModel::Excluded,
    }
}

// ---------------------------------------------------------------------------
// Candidate ordering
// ---------------------------------------------------------------------------
/// Allocation order: larger scores first, ties broken by path ascending.
pub open spec fn spec_cand_lt(a: FileCandidate, b: FileCandidate) -> bool {
    a.score > b.score || (a.score == b.score && seq_str_lt(a.path@, b.path@))
}

/// `p` inserted into `sorted` before the first candidate it precedes.
pub open spec fn spec_insert_cand(sorted: Seq<FileCandidate>, p: FileCandidate) -> Seq<
    FileCandidate,
>
    decreases sorted.len(),
{
    if sorted.len() == 0 {
        seq![p]
    } else if spec_cand_lt(p, sorted[0]) {
        seq![p] + sorted
    } else {
        seq![sorted[0]] + spec_insert_cand(sorted.drop_first(), p)
    }
}

/// The candidates, insertion-sorted by score descending then path
/// ascending; insertion after equals keeps the sort stable.
pub open spec fn spec_sort_cands(m: Seq<FileCandidate>) -> Seq<FileCandidate>
    decreases m.len(),
{
    if m.len() == 0 {
        m
    } else {
        spec_insert_cand(spec_sort_cands(m.drop_last()), m.last())
    }
}

fn cand_lt(a: &FileCandidate, b: &FileCandidate) -> (r: bool)
    ensures
        r == spec_cand_lt(*a, *b),
{
    if a.score > b.score {
        true
    } else if a.score == b.score {
        crate::text::str_lt(a.path.as_str(), b.path.as_str())
    } else {
        false
    }
}

proof fn lemma_insert_cand_at(s: Seq<FileCandidate>, p: FileCandidate, j: int)
    requires
        0 <= j <= s.len(),
        forall|k: int| 0 <= k < j ==> !spec_cand_lt(p, s[k]),
        j < s.len() ==> spec_cand_lt(p, s[j]),
    ensures
        spec_insert_cand(s, p) == s.subrange(0, j) + seq![p] + s.subrange(j, s.len() as int),
    decreases s.len(),
{
    if s.len() == 0 || j == 0 {
        assert(spec_insert_cand(s, p) =~= s.subrange(0, j) + seq![p] + s.subrange(
            j,
            s.len() as int,
        ));
    } else {
        let d = s.drop_first();
        assert(forall|k: int| 0 <= k < j - 1 ==> !spec_cand_lt(p, #[trigger] d[k]));
        lemma_insert_cand_at(d, p, j - 1);
        assert(spec_insert_cand(s, p) =~= s.subrange(0, j) + seq![p] + s.subrange(
            j,
            s.len() as int,
        ));
    }
}

/// Sort candidates into allocation order: score descending, ties broken by
/// path ascending, stably.
pub fn sort_candidates(v: &mut Vec<FileCandidate>)
    ensures
        final(v)@ == spec_sort_cands(old(v)@),
{
    let mut r: Vec<FileCandidate> = Vec::new();
    let ghost m = v@;
    let mut i: usize = 0;
    proof {
        assert(m.subrange(0, 0) =~= Seq::<FileCandidate>::empty());
    }
    while i < v.len()
        invariant
            m == v@,
            0 <= i <= v@.len(),
            r@ == spec_sort_cands(m.subrange(0, i as int)),
        decreases v@.len() - i,
    {
        let p = FileCandidate {
            path: v[i].path.clone(),
            content: v[i].content.clone(),
            score: v[i].score,
            is_prose: v[i].is_prose,
        };
        proof {
            assert(p == m[i as int]);
        }
        let mut j: usize = 0;
        while j < r.len() && !cand_lt(&p, &r[j])
            invariant
                0 <= j <= r@.len(),
                forall|k: int| 0 <= k < j ==> !spec_cand_lt(p, #[trigger] r@[k]),
            decreases r@.len() - j,
        {
            j = j + 1;
        }
        proof {
            lemma_insert_cand_at(r@, p, j as int);
        }
        let ghost old_r = r@;
        r.insert(j, p);
        proof {
            assert(old_r.insert(j as int, p) =~= old_r.subrange(0, j as int) + seq![p]
                + old_r.subrange(j as int, old_r.len() as int));
            assert(m.subrange(0, i + 1).drop_last() =~= m.subrange(0, i as int));
            assert(m.subrange(0, i + 1).last() == m[i as int]);
        }
        i = i + 1;
    }
    proof {
        assert(m.subrange(0, m.len() as int) =~= m);
    }
    *v = r;
}

// ---------------------------------------------------------------------------
// Skip decisions (the pure checks; size and content checks need the disk and
// stay with the caller)
// ---------------------------------------------------------------------------
/// Why a path is skipped before its content is ever read: it misses the
/// match filter, looks like a secret, fails the extension filters, or
/// carries a binary extension.
pub open spec fn spec_should_skip(path: Seq<char>, c: Config) -> Option<SkipReason> {
    let name = after_last(path, '/');
    if !spec_should_include_by_match(c, name) {
        Some(SkipReason::Match)
    } else if spec_is_secret_file(path) {
        Some(SkipReason::Secret)
    } else {
        match spec_extension(name) {
            Some(e) => if !crate::config::spec_should_include_extension(c, e) {
                Some(SkipReason::Extension)
            } else if spec_is_binary_extension(path) {
                Some(SkipReason::Binary)
            } else {
                None
            },
            None => None,
        }
    }
}

/// Check if a file should be skipped on its name alone, returning the
/// reason if so. Size and content checks are the caller's, since they need
/// the disk.
pub fn should_skip(path: &str, config: &Config) -> (r: Option<SkipReason>)
    ensures
        r == spec_should_skip(path@, *config),
{
    let pv = chars_of(path);
    let name_v = after_last_exec(&pv, '/');
    let name = string_from_chars(&name_v);
    if !config.should_include_by_match(name.as_str()) {
        return Some(SkipReason::Match);
    }
    if crate::filters::is_secret_file(path) {
        return Some(SkipReason::Secret);
    }
    match crate::filters::extension_of_path(path) {
        Some(e) => {
            if !config.should_include_extension(e.as_str()) {
                return Some(SkipReason::Extension);
            }
            if crate::filters::is_binary_extension(path) {
                return Some(SkipReason::Binary);
            }
            None
        },
        None => None,
    }
}

// ---------------------------------------------------------------------------
// Per-file compression decisions
// ---------------------------------------------------------------------------
/// What compressing one already-affordable file yields: the decision,
/// whether a compression is to be counted, and the warning a fallback
/// carries.
pub open spec fn spec_maybe_compress(c: Config, path: Seq<char>, content: Seq<char>) -> (
    DecisionModel,
    bool,
    Option<Seq<char>>,
) {
    if spec_is_full_match(c, after_last(path, '/')) {
        (DecisionModel::Full(encode_utf8(content)), false, None::<Seq<char>>)
    } else {
        match spec_language_for_path(path) {
            Some(lang) => match spec_compress_source(lang, content) {
                CompressModel::Compressed(b) => (DecisionModel::Compressed(b), true, None::<
                    Seq<char>,
                >),
                CompressModel::Fallback(b, r) => (DecisionModel::Full(b), false, r),
            },
            None => (DecisionModel::Full(encode_utf8(content)), false, None::<Seq<char>>),
        }
    }
}

/// Try to compress a file that already fits the budget, returning the
/// decision, whether a compression happened, and the warning to print where
/// compression fell back with a reason.
pub fn maybe_compress(config: &Config, path: &str, content: &str) -> (r: (
    FileDecision,
    bool,
    Option<String>,
))
    ensures
        ({
            let m = spec_maybe_compress(*config, path@, content@);
            &&& decision_view(r.0) == m.0
            &&& r.1 == m.1
            &&& (match r.2 {
                Some(w) => Some(w@),
                None => None,
            }) == m.2
        }),
{
    let pv = chars_of(path);
    let name_v = after_last_exec(&pv, '/');
    let name = string_from_chars(&name_v);
    if config.is_full_match(name.as_str()) {
        return (FileDecision::IncludeFull(content.to_owned()), false, None);
    }
    match language_for_path(path) {
        Some(lang) => {
            match compress_source(content, lang) {
                CompressResult::Compressed(compressed) => {
                    (FileDecision::IncludeCompressed(compressed), true, None)
                },
                CompressResult::Fallback(original, reason) => {
                    (FileDecision::IncludeFull(original), false, reason)
                },
            }
        },
        None => (FileDecision::IncludeFull(content.to_owned()), false, None),
    }
}

// ---------------------------------------------------------------------------
// Budget allocation
// ---------------------------------------------------------------------------
/// The running state of one allocation pass.
pub struct PlanState {
    pub decisions: Seq<DecisionModel>,
    pub remaining: nat,
    pub used: nat,
    pub compressed: nat,
    pub excluded: Seq<Seq<char>>,
}

/// The fresh state for a budget.
pub open spec fn plan_init(budget: nat) -> PlanState {
    PlanState {
        decisions: Seq::empty(),
        remaining: budget,
        used: 0,
        compressed: 0,
        excluded: Seq::empty(),
    }
}

/// One candidate's allocation step. A full-match file is only ever included
/// whole; a file whose full estimate fits is charged in full (and still
/// compressed, to shrink the output, when compression is on); a file that
/// does not fit is offered compressed, then at its fallback size; what still
/// does not fit is excluded.
pub open spec fn spec_plan_step(c: Config, cand: FileCandidate, st: PlanState) -> PlanState {
    let name = after_last(cand.path@, '/');
    let full_tokens = spec_estimate_tokens(encode_utf8(cand.content@).len(), cand.is_prose);
    if c.compress && spec_is_full_match(c, name) {
        if full_tokens <= st.remaining {
            PlanState {
                decisions: st.decisions.push(DecisionModel::Full(encode_utf8(cand.content@))),
                remaining: (st.remaining - full_tokens) as nat,
                used: st.used + full_tokens,
                ..st
            }
        } else {
            PlanState {
                decisions: st.decisions.push(DecisionModel::Excluded),
                excluded: st.excluded.push(cand.path@),
                ..st
            }
        }
    } else if full_tokens <= st.remaining {
        let charged = PlanState {
            remaining: (st.remaining - full_tokens) as nat,
            used: st.used + full_tokens,
            ..st
        };
        if c.compress {
            let mc = spec_maybe_compress(c, cand.path@, cand.content@);
            PlanState {
                decisions: st.decisions.push(mc.0),
                compressed: st.compressed + (if mc.1 {
                    1nat
                } else {
                    0nat
                }),
                ..charged
            }
        } else {
            PlanState {
                decisions: st.decisions.push(DecisionModel::Full(encode_utf8(cand.content@))),
                ..charged
            }
        }
    } else if c.compress {
        match spec_language_for_path(cand.path@) {
            Some(lang) => match spec_compress_source(lang, cand.content@) {
                CompressModel::Compressed(b) => {
                    let ct = spec_estimate_tokens(b.len(), cand.is_prose);
                    if ct <= st.remaining {
                        PlanState {
                            decisions: st.decisions.push(DecisionModel::Compressed(b)),
                            remaining: (st.remaining - ct) as nat,
                            used: st.used + ct,
                            compressed: st.compressed + 1,
                            ..st
                        }
                    } else {
                        PlanState {
                            decisions: st.decisions.push(DecisionModel::Excluded),
                            excluded: st.excluded.push(cand.path@),
                            ..st
                        }
                    }
                },
                CompressModel::Fallback(b, _) => {
                    let ft = spec_estimate_tokens(b.len(), cand.is_prose);
                    if ft <= st.remaining {
                        PlanState {
                            decisions: st.decisions.push(DecisionModel::Full(b)),
                            remaining: (st.remaining - ft) as nat,
                            used: st.used + ft,
                            ..st
                        }
                    } else {
                        PlanState {
                            decisions: st.decisions.push(DecisionModel::Excluded),
                            excluded: st.excluded.push(cand.path@),
                            ..st
                        }
                    }
                },
            },
            None => PlanState {
                decisions: st.decisions.push(DecisionModel::Excluded),
                excluded: st.excluded.push(cand.path@),
                ..st
            },
        }
    } else {
        PlanState {
            decisions: st.decisions.push(DecisionModel::Excluded),
            excluded: st.excluded.push(cand.path@),
            ..st
        }
    }
}

/// The state after allocating the first `i` candidates.
pub open spec fn spec_plan_upto(c: Config, cands: Seq<FileCandidate>, budget: nat, i: int) -> PlanState
    decreases i,
{
    if 0 < i <= cands.len() {
        spec_plan_step(c, cands[i - 1], spec_plan_upto(c, cands, budget, i - 1))
    } else {
        plan_init(budget)
    }
}

/// The views of a decision sequence.
pub open spec fn views_of_decisions(v: Seq<FileDecision>) -> Seq<DecisionModel> {
    v.map_values(|d: FileDecision| decision_view(d))
}

/// Budget bookkeeping stays consistent: tokens used and remaining always
/// partition the budget, and one decision stands per candidate seen.
pub proof fn lemma_plan_invariants(c: Config, cands: Seq<FileCandidate>, budget: nat, i: int)
    requires
        0 <= i <= cands.len(),
    ensures
        spec_plan_upto(c, cands, budget, i).used + spec_plan_upto(c, cands, budget, i).remaining
            == budget,
        spec_plan_upto(c, cands, budget, i).used <= budget,
        spec_plan_upto(c, cands, budget, i).decisions.len() == i,
        spec_plan_upto(c, cands, budget, i).compressed <= i,
        spec_plan_upto(c, cands, budget, i).excluded.len() <= i,
    decreases i,
{
    if i > 0 {
        lemma_plan_invariants(c, cands, budget, i - 1);
    }
}

/// The warning one candidate's turn surfaces: the reason of a compression
/// fallback, whether the file had already fit in full or was only offered
/// compressed.
pub open spec fn spec_step_warning(c: Config, cand: FileCandidate, remaining: nat) -> Option<
    Seq<char>,
> {
    let name = after_last(cand.path@, '/');
    let full_tokens = spec_estimate_tokens(encode_utf8(cand.content@).len(), cand.is_prose);
    if c.compress && spec_is_full_match(c, name) {
        None::<Seq<char>>
    } else if full_tokens <= remaining {
        if c.compress {
            spec_maybe_compress(c, cand.path@, cand.content@).2
        } else {
            None::<Seq<char>>
        }
    } else if c.compress {
        match spec_language_for_path(cand.path@) {
            Some(lang) => match spec_compress_source(lang, cand.content@) {
                CompressModel::Compressed(_) => None::<Seq<char>>,
                CompressModel::Fallback(_, r) => r,
            },
            None => None::<Seq<char>>,
        }
    } else {
        None::<Seq<char>>
    }
}

/// One candidate's turn at the budget: the decision, what remains
/// afterwards, and the warning to surface where compression fell back. The
/// statistics take the tokens charged, the compressed count and the
/// exclusion, exactly as `spec_plan_step` says of a fresh state holding
/// `remaining`. The parser runs before any counter moves, so a caller that
/// isolates a parser fault around this call finds the statistics and the
/// budget untouched.
#[verifier::rlimit(100)]
pub fn plan_budget_step(
    config: &Config,
    cand: &FileCandidate,
    remaining: usize,
    stats: &mut Statistics,
) -> (r: (FileDecision, usize, Option<String>))
    requires
        old(stats).tokens_used + remaining <= usize::MAX,
        old(stats).compressed_files < usize::MAX,
    ensures
        ({
            let st = spec_plan_step(*config, *cand, plan_init(remaining as nat));
            &&& st.decisions.len() == 1
            &&& decision_view(r.0) == st.decisions[0]
            &&& r.1 == st.remaining
            &&& (match r.2 {
                Some(w) => Some(w@),
                None => None,
            }) == spec_step_warning(*config, *cand, remaining as nat)
            &&& final(stats).tokens_used == old(stats).tokens_used + st.used
            &&& final(stats).compressed_files == old(stats).compressed_files + st.compressed
            &&& final(stats).excluded_by_budget@.len() == old(stats).excluded_by_budget@.len()
                + st.excluded.len()
            &&& forall|k: int|
                0 <= k < old(stats).excluded_by_budget@.len() ==> final(stats).excluded_by_budget@[k] == old(stats).excluded_by_budget@[k]
            &&& forall|k: int|
                0 <= k < st.excluded.len() ==> (#[trigger] final(stats).excluded_by_budget@[old(stats).excluded_by_budget@.len() + k])@ == st.excluded[k]
            &&& final(stats).total_files == old(stats).total_files
            &&& final(stats).included_files == old(stats).included_files
            &&& final(stats).skipped_by_reason == old(stats).skipped_by_reason
            &&& final(stats).included_by_extension == old(stats).included_by_extension
            &&& final(stats).output_size == old(stats).output_size
            &&& final(stats).token_budget == old(stats).token_budget
        }),
{
    let pv = chars_of(cand.path.as_str());
    let name_v = after_last_exec(&pv, '/');
    let name = string_from_chars(&name_v);
    let full_tokens = estimate_tokens(cand.content.as_str(), cand.is_prose);
    if config.compress && config.is_full_match(name.as_str()) {
        if full_tokens <= remaining {
            stats.tokens_used = stats.tokens_used + full_tokens;
            (
                FileDecision::IncludeFull(cand.content.clone()),
                remaining - full_tokens,
                None,
            )
        } else {
            stats.excluded_by_budget.push(cand.path.clone());
            (FileDecision::Excluded, remaining, None)
        }
    } else if full_tokens <= remaining {
        if config.compress {
            let mc = maybe_compress(config, cand.path.as_str(), cand.content.as_str());
            stats.tokens_used = stats.tokens_used + full_tokens;
            if mc.1 {
                stats.compressed_files = stats.compressed_files + 1;
            }
            (mc.0, remaining - full_tokens, mc.2)
        } else {
            stats.tokens_used = stats.tokens_used + full_tokens;
            (
                FileDecision::IncludeFull(cand.content.clone()),
                remaining - full_tokens,
                None,
            )
        }
    } else if config.compress {
        match language_for_path(cand.path.as_str()) {
            Some(lang) => {
                match compress_source(cand.content.as_str(), lang) {
                    CompressResult::Compressed(compressed) => {
                        let ct = estimate_tokens(compressed.as_str(), cand.is_prose);
                        if ct <= remaining {
                            stats.tokens_used = stats.tokens_used + ct;
                            stats.compressed_files = stats.compressed_files + 1;
                            (
                                FileDecision::IncludeCompressed(compressed),
                                remaining - ct,
                                None,
                            )
                        } else {
                            stats.excluded_by_budget.push(cand.path.clone());
                            (FileDecision::Excluded, remaining, None)
                        }
                    },
                    CompressResult::Fallback(original, reason) => {
                        let ft = estimate_tokens(original.as_str(), cand.is_prose);
                        if ft <= remaining {
                            stats.tokens_used = stats.tokens_used + ft;
                            (FileDecision::IncludeFull(original), remaining - ft, reason)
                        } else {
                            stats.excluded_by_budget.push(cand.path.clone());
                            (FileDecision::Excluded, remaining, reason)
                        }
                    },
                }
            },
            None => {
                stats.excluded_by_budget.push(cand.path.clone());
                (FileDecision::Excluded, remaining, None)
            },
        }
    } else {
        stats.excluded_by_budget.push(cand.path.clone());
        (FileDecision::Excluded, remaining, None)
    }
}

/// One step against an arbitrary running state is the same step against a
/// fresh state holding the same remaining budget, grafted on.
proof fn lemma_plan_step_frame(c: Config, cand: FileCandidate, st: PlanState)
    ensures
        ({
            let d = spec_plan_step(c, cand, plan_init(st.remaining));
            let f = spec_plan_step(c, cand, st);
            &&& d.decisions.len() == 1
            &&& f.decisions =~= st.decisions + d.decisions
            &&& f.remaining == d.remaining
            &&& f.used == st.used + d.used
            &&& f.compressed == st.compressed + d.compressed
            &&& f.excluded =~= st.excluded + d.excluded
        }),
{
    let d = spec_plan_step(c, cand, plan_init(st.remaining));
    let f = spec_plan_step(c, cand, st);
    assert(f.decisions =~= st.decisions + d.decisions);
    assert(f.excluded =~= st.excluded + d.excluded);
}

/// Allocate the (sorted) candidates against the token budget, one greedy
/// pass, never revisiting a decision. The statistics accumulate the tokens
/// used, the compressed-file count, and the exclusion list, in allocation
/// order.
#[verifier::rlimit(100)]
pub fn plan_budget(
    config: &Config,
    candidates: &Vec<FileCandidate>,
    budget: usize,
    stats: &mut Statistics,
) -> (decisions: Vec<FileDecision>)
    requires
        old(stats).tokens_used + budget <= usize::MAX,
        old(stats).compressed_files + candidates@.len() <= usize::MAX,
    ensures
        ({
            let st = spec_plan_upto(*config, candidates@, budget as nat, candidates@.len() as int);
            &&& views_of_decisions(decisions@) == st.decisions
            &&& final(stats).tokens_used == old(stats).tokens_used + st.used
            &&& final(stats).compressed_files == old(stats).compressed_files + st.compressed
            &&& final(stats).excluded_by_budget@.len() == old(stats).excluded_by_budget@.len()
                + st.excluded.len()
            &&& forall|k: int|
                0 <= k < old(stats).excluded_by_budget@.len() ==> final(stats).excluded_by_budget@[k] == old(stats).excluded_by_budget@[k]
            &&& forall|k: int|
                0 <= k < st.excluded.len() ==> (#[trigger] final(stats).excluded_by_budget@[old(stats).excluded_by_budget@.len() + k])@ == st.excluded[k]
            &&& final(stats).total_files == old(stats).total_files
            &&& final(stats).included_files == old(stats).included_files
            &&& final(stats).skipped_by_reason == old(stats).skipped_by_reason
            &&& final(stats).included_by_extension == old(stats).included_by_extension
            &&& final(stats).output_size == old(stats).output_size
            &&& final(stats).token_budget == old(stats).token_budget
        }),
{
    let mut decisions: Vec<FileDecision> = Vec::new();
    let mut remaining: usize = budget;
    let mut i: usize = 0;
    while i < candidates.len()
        invariant
            0 <= i <= candidates@.len(),
            old(stats).tokens_used + budget <= usize::MAX,
            old(stats).compressed_files + candidates@.len() <= usize::MAX,
            ({
                let st = spec_plan_upto(*config, candidates@, budget as nat, i as int);
                &&& views_of_decisions(decisions@) == st.decisions
                &&& remaining == st.remaining
                &&& st.used + st.remaining == budget
                &&& st.compressed <= i
                &&& stats.tokens_used == old(stats).tokens_used + st.used
                &&& stats.compressed_files == old(stats).compressed_files + st.compressed
                &&& stats.excluded_by_budget@.len() == old(stats).excluded_by_budget@.len()
                    + st.excluded.len()
                &&& forall|k: int|
                    0 <= k < old(stats).excluded_by_budget@.len()
                        ==> stats.excluded_by_budget@[k] == old(stats).excluded_by_budget@[k]
                &&& forall|k: int|
                    0 <= k < st.excluded.len() ==> (#[trigger] stats.excluded_by_budget@[old(stats).excluded_by_budget@.len() + k])@ == st.excluded[k]
                &&& stats.total_files == old(stats).total_files
                &&& stats.included_files == old(stats).included_files
                &&& stats.skipped_by_reason == old(stats).skipped_by_reason
                &&& stats.included_by_extension == old(stats).included_by_extension
                &&& stats.output_size == old(stats).output_size
                &&& stats.token_budget == old(stats).token_budget
            }),
        decreases candidates@.len() - i,
    {
        let ghost st_pre = spec_plan_upto(*config, candidates@, budget as nat, i as int);
        let ghost mid_excluded = stats.excluded_by_budget@;
        let cand = &candidates[i];
        proof {
            lemma_plan_step_frame(*config, candidates@[i as int], st_pre);
        }
        let step = plan_budget_step(config, cand, remaining, stats);
        decisions.push(step.0);
        remaining = step.1;
        proof {
            let st_post = spec_plan_upto(*config, candidates@, budget as nat, i + 1);
            let d = spec_plan_step(*config, candidates@[i as int], plan_init(st_pre.remaining));
            assert(st_post == spec_plan_step(*config, candidates@[i as int], st_pre));
            assert(decisions@.len() == st_post.decisions.len());
            assert(forall|k: int|
                0 <= k < decisions@.len() - 1 ==> views_of_decisions(decisions@)[k]
                    == st_post.decisions[k]);
            assert(views_of_decisions(decisions@).last() == st_post.decisions.last());
            assert(views_of_decisions(decisions@) =~~= st_post.decisions);
            assert forall|k: int| 0 <= k < st_post.excluded.len() implies (
            #[trigger] stats.excluded_by_budget@[old(stats).excluded_by_budget@.len() + k])@
                == st_post.excluded[k] by {
                if k < st_pre.excluded.len() {
                    assert(stats.excluded_by_budget@[old(stats).excluded_by_budget@.len() + k]
                        == mid_excluded[old(stats).excluded_by_budget@.len() + k]);
                } else {
                    let k2 = k - st_pre.excluded.len();
                    assert(stats.excluded_by_budget@[mid_excluded.len() as int + k2]@
                        == d.excluded[k2]);
                }
            }
        }
        i = i + 1;
    }
    decisions
}

/// Determinism: one allocation outcome stands for each candidate sequence
/// and budget; two runs over the same inputs yield the same decisions and
/// the same statistics.
pub proof fn lemma_allocation_deterministic(
    c: Config,
    cands: Seq<FileCandidate>,
    budget: nat,
    r1: PlanState,
    r2: PlanState,
)
    requires
        r1 == spec_plan_upto(c, cands, budget, cands.len() as int),
        r2 == spec_plan_upto(c, cands, budget, cands.len() as int),
    ensures
        r1 == r2,
{
}

/// Budget conservation: the tokens of everything included never exceed the
/// budget, and every exclusion happened because the candidate's estimate
/// exceeded what remained at its turn.
pub proof fn lemma_budget_conserved(c: Config, cands: Seq<FileCandidate>, budget: nat)
    ensures
        spec_plan_upto(c, cands, budget, cands.len() as int).used <= budget,
        forall|i: int|
            0 <= i < cands.len() && (#[trigger] spec_plan_upto(c, cands, budget, i + 1).decisions[i])
                is Excluded ==> spec_estimate_tokens(
                encode_utf8(cands[i].content@).len(),
                cands[i].is_prose,
            ) > spec_plan_upto(c, cands, budget, i).remaining,
{
    lemma_plan_invariants(c, cands, budget, cands.len() as int);
    assert forall|i: int|
        0 <= i < cands.len() && (#[trigger] spec_plan_upto(c, cands, budget, i + 1).decisions[i])
            is Excluded implies spec_estimate_tokens(
        encode_utf8(cands[i].content@).len(),
        cands[i].is_prose,
    ) > spec_plan_upto(c, cands, budget, i).remaining by {
        lemma_plan_invariants(c, cands, budget, i);
        let st = spec_plan_upto(c, cands, budget, i);
        let st2 = spec_plan_upto(c, cands, budget, i + 1);
        assert(st2 == spec_plan_step(c, cands[i], st));
        assert(st2.decisions[i] == st2.decisions.last());
    }
}

/// A zero budget with positive estimates excludes everything: nothing is
/// included, nothing is charged, and every candidate lands on the exclusion
/// list, in order.
pub proof fn lemma_zero_budget_excludes_all(c: Config, cands: Seq<FileCandidate>, i: int)
    requires
        !c.compress,
        0 <= i <= cands.len(),
        forall|k: int|
            0 <= k < cands.len() ==> spec_estimate_tokens(
                encode_utf8((#[trigger] cands[k]).content@).len(),
                cands[k].is_prose,
            ) > 0,
    ensures
        spec_plan_upto(c, cands, 0, i).used == 0,
        spec_plan_upto(c, cands, 0, i).remaining == 0,
        spec_plan_upto(c, cands, 0, i).excluded.len() == i,
        spec_plan_upto(c, cands, 0, i).decisions.len() == i,
        forall|k: int|
            0 <= k < i ==> (#[trigger] spec_plan_upto(c, cands, 0, i).decisions[k]) is Excluded,
    decreases i,
{
    if i > 0 {
        lemma_zero_budget_excludes_all(c, cands, i - 1);
    }
}

/// What a non-budgeted run emits for one file: the body, the mode tag,
/// whether a compression is to be counted, and the fallback warning to
/// surface, if any.
pub struct FileOutput {
    pub body: String,
    pub mode: Option<String>,
    pub compressed: bool,
    pub warning: Option<String>,
}

/// What a non-budgeted run emits for one file: its body, the mode tag,
/// whether a compression is to be counted, and the warning a fallback
/// carries. Without compression the body passes through untagged; a
/// full-match file keeps its content under the "full" tag; otherwise a
/// recognized language is compressed (the fallback text going out under
/// "full", with its reason surfaced), and an unrecognized one passes
/// through under "full".
pub open spec fn spec_plan_normal(c: Config, path: Seq<char>, content: Seq<char>) -> (
    Seq<u8>,
    Option<Seq<char>>,
    bool,
    Option<Seq<char>>,
) {
    if !c.compress {
        (encode_utf8(content), None::<Seq<char>>, false, None::<Seq<char>>)
    } else if spec_is_full_match(c, after_last(path, '/')) {
        (encode_utf8(content), Some("full"@), false, None::<Seq<char>>)
    } else {
        match spec_language_for_path(path) {
            Some(lang) => match spec_compress_source(lang, content) {
                CompressModel::Compressed(b) => (b, Some("compressed"@), true, None::<Seq<char>>),
                CompressModel::Fallback(b, r) => (b, Some("full"@), false, r),
            },
            None => (encode_utf8(content), Some("full"@), false, None::<Seq<char>>),
        }
    }
}

/// Decide one file of a non-budgeted run: the body to write, the mode tag,
/// whether it counts as compressed, and the warning to print where
/// compression fell back with a reason.
pub fn plan_file_output(config: &Config, path: &str, content: &str) -> (r: FileOutput)
    ensures
        ({
            let m = spec_plan_normal(*config, path@, content@);
            &&& encode_utf8(r.body@) == m.0
            &&& (match r.mode {
                Some(x) => Some(x@),
                None => None,
            }) == m.1
            &&& r.compressed == m.2
            &&& (match r.warning {
                Some(x) => Some(x@),
                None => None,
            }) == m.3
        }),
{
    if !config.compress {
        return FileOutput { body: content.to_owned(), mode: None, compressed: false, warning: None };
    }
    let pv = chars_of(path);
    let name_v = after_last_exec(&pv, '/');
    let name = string_from_chars(&name_v);
    if config.is_full_match(name.as_str()) {
        return FileOutput {
            body: content.to_owned(),
            mode: Some(String::from_str("full")),
            compressed: false,
            warning: None,
        };
    }
    match language_for_path(path) {
        Some(lang) => {
            match compress_source(content, lang) {
                CompressResult::Compressed(compressed) => FileOutput {
                    body: compressed,
                    mode: Some(String::from_str("compressed")),
                    compressed: true,
                    warning: None,
                },
                CompressResult::Fallback(original, reason) => FileOutput {
                    body: original,
                    mode: Some(String::from_str("full")),
                    compressed: false,
                    warning: reason,
                },
            }
        },
        None => FileOutput {
            body: content.to_owned(),
            mode: Some(String::from_str("full")),
            compressed: false,
            warning: None,
        },
    }
}


/// Strict lexicographic order is asymmetric.
proof fn lemma_str_lt_asym(a: Seq<char>, b: Seq<char>)
    requires
        seq_str_lt(a, b),
    ensures
        !seq_str_lt(b, a),
{
    if seq_str_lt(b, a) {
        if exists|i: int|
            0 <= i < a.len() && i < b.len() && (forall|j: int| 0 <= j < i ==> a[j] == b[j]) && a[i]
                != b[i] && (a[i] as u32) < (b[i] as u32) {
            let i = choose|i: int|
                0 <= i < a.len() && i < b.len() && (forall|j: int| 0 <= j < i ==> a[j] == b[j])
                    && a[i] != b[i] && (a[i] as u32) < (b[i] as u32);
            if exists|k: int|
                0 <= k < b.len() && k < a.len() && (forall|j: int| 0 <= j < k ==> b[j] == a[j])
                    && b[k] != a[k] && (b[k] as u32) < (a[k] as u32) {
                let k = choose|k: int|
                    0 <= k < b.len() && k < a.len() && (forall|j: int| 0 <= j < k ==> b[j] == a[j])
                        && b[k] != a[k] && (b[k] as u32) < (a[k] as u32);
                if i < k {
                    assert(b[i] == a[i]);
                } else if k < i {
                    assert(a[k] == b[k]);
                } else {
                    assert((a[i] as u32) < (b[i] as u32) && (b[i] as u32) < (a[i] as u32));
                }
                assert(false);
            } else {
                assert(b.len() < a.len() && b == a.subrange(0, b.len() as int));
                assert(a[i] == a.subrange(0, b.len() as int)[i]);
                assert(false);
            }
        } else {
            assert(a.len() < b.len() && a == b.subrange(0, a.len() as int));
            if exists|k: int|
                0 <= k < b.len() && k < a.len() && (forall|j: int| 0 <= j < k ==> b[j] == a[j])
                    && b[k] != a[k] && (b[k] as u32) < (a[k] as u32) {
                let k = choose|k: int|
                    0 <= k < b.len() && k < a.len() && (forall|j: int| 0 <= j < k ==> b[j] == a[j])
                        && b[k] != a[k] && (b[k] as u32) < (a[k] as u32);
                assert(b[k] == b.subrange(0, a.len() as int)[k]);
                assert(false);
            } else {
                assert(b.len() < a.len());
                assert(false);
            }
        }
    }
}

/// Allocation order is asymmetric: no two candidates each strictly precede
/// the other.
proof fn lemma_cand_lt_asym(a: FileCandidate, b: FileCandidate)
    requires
        spec_cand_lt(a, b),
    ensures
        !spec_cand_lt(b, a),
{
    if a.score == b.score && seq_str_lt(a.path@, b.path@) {
        lemma_str_lt_asym(a.path@, b.path@);
    }
}

/// No later candidate strictly precedes an earlier one.
pub open spec fn spec_cands_ordered(s: Seq<FileCandidate>) -> bool {
    forall|i: int|
        0 <= i < s.len() - 1 ==> !spec_cand_lt(#[trigger] s[i + 1], s[i])
}

proof fn lemma_insert_cand_keeps_order(s: Seq<FileCandidate>, p: FileCandidate)
    requires
        spec_cands_ordered(s),
    ensures
        spec_cands_ordered(spec_insert_cand(s, p)),
        spec_insert_cand(s, p).to_multiset() == s.to_multiset().insert(p),
    decreases s.len(),
{
    broadcast use vstd::multiset::group_multiset_axioms;

    let r = spec_insert_cand(s, p);
    if s.len() == 0 {
        assert(r =~= s.push(p));
        proof_to_multiset_push(s, p);
        assert(spec_cands_ordered(r));
    } else if spec_cand_lt(p, s[0]) {
        assert(r == seq![p] + s);
        assert(r.len() == s.len() + 1);
        assert(r[0] == p);
        lemma_cand_lt_asym(p, s[0]);
        assert forall|i: int| 0 <= i < r.len() - 1 implies !spec_cand_lt(#[trigger] r[i + 1], r[i]) by {
            assert(r == seq![p] + s);
            if i == 0 {
                assert(r[0] == p && r[1] == s[0]);
            } else {
                assert(r[i] == s[i - 1] && r[i + 1] == s[i]);
                assert(!spec_cand_lt(s[(i - 1) + 1], s[i - 1]));
            }
        }
        vstd::seq_lib::lemma_multiset_commutative(seq![p], s);
        lemma_singleton_multiset(p);
        assert(r.to_multiset() =~= s.to_multiset().insert(p));
    } else {
        let d = s.drop_first();
        assert(spec_cands_ordered(d)) by {
            assert(forall|i: int|
                0 <= i < d.len() - 1 ==> d[i] == s[i + 1] && #[trigger] d[i + 1] == s[i + 2]);
        }
        lemma_insert_cand_keeps_order(d, p);
        let rd = spec_insert_cand(d, p);
        assert(r == seq![s[0]] + rd);
        // the head pair: either p itself or the old second element follows s[0]
        assert(rd.len() > 0);
        if d.len() == 0 {
            assert(rd == seq![p]);
            assert(!spec_cand_lt(p, s[0]));
        } else if spec_cand_lt(p, d[0]) {
            assert(rd[0] == p);
            assert(!spec_cand_lt(p, s[0]));
        } else {
            assert(rd[0] == d[0]);
            assert(!spec_cand_lt(d[0], s[0]));
        }
        assert forall|i: int| 0 <= i < r.len() - 1 implies !spec_cand_lt(#[trigger] r[i + 1], r[i]) by {
            assert(r == seq![s[0]] + rd);
            if i == 0 {
                assert(r[0] == s[0] && r[1] == rd[0]);
            } else {
                assert(r[i] == rd[i - 1] && r[i + 1] == rd[i]);
                assert(!spec_cand_lt(rd[(i - 1) + 1], rd[i - 1]));
            }
        }
        assert(r.to_multiset() =~= s.to_multiset().insert(p)) by {
            broadcast use vstd::multiset::group_multiset_axioms;

            assert(s =~= seq![s[0]] + d);
            vstd::seq_lib::lemma_multiset_commutative(seq![s[0]], rd);
            vstd::seq_lib::lemma_multiset_commutative(seq![s[0]], d);
        }
    }
}

/// The multiset of a pushed sequence gains exactly the pushed element.
proof fn proof_to_multiset_push(s: Seq<FileCandidate>, p: FileCandidate)
    ensures
        s.push(p).to_multiset() == s.to_multiset().insert(p),
{
    s.to_multiset_ensures();
    assert(s.push(p).to_multiset() =~= s.to_multiset().insert(p));
}

/// The multiset of a one-element sequence.
proof fn lemma_singleton_multiset(p: FileCandidate)
    ensures
        seq![p].to_multiset() == Multiset::<FileCandidate>::empty().insert(p),
{
    broadcast use vstd::multiset::group_multiset_axioms;

    let e = Seq::<FileCandidate>::empty();
    e.to_multiset_ensures();
    assert(e.push(p) =~= seq![p]);
    assert(e.to_multiset() =~= Multiset::<FileCandidate>::empty());
    assert(seq![p].to_multiset() =~= Multiset::<FileCandidate>::empty().insert(p));
}

/// The sort keeps exactly the given candidates, arranged so that no later
/// one strictly precedes an earlier one: scores never rise, and paths never
/// fall back within a score.
pub proof fn lemma_sort_cands_ordered(m: Seq<FileCandidate>)
    ensures
        spec_cands_ordered(spec_sort_cands(m)),
        spec_sort_cands(m).to_multiset() == m.to_multiset(),
    decreases m.len(),
{
    if m.len() == 0 {
        assert(spec_cands_ordered(m));
    } else {
        lemma_sort_cands_ordered(m.drop_last());
        lemma_insert_cand_keeps_order(spec_sort_cands(m.drop_last()), m.last());
        assert(m =~= m.drop_last().push(m.last()));
        proof_to_multiset_push(m.drop_last(), m.last());
    }
}

} // verus!
