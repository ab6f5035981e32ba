//! Token estimation: a pessimistic, purely size-based guess at how many
//! tokens a chunk of content costs, biased to overestimate.
use vstd::prelude::*;

verus! {

use vstd::string::StringSliceAdditionalSpecFns;
use crate::text::{lower_seq, lower_chars_of, chars_eq_str};

/// Estimated token count: byte length divided by 4 for prose, by 3 for code.
pub open spec fn spec_estimate_tokens(byte_len: nat, is_prose: bool) -> nat {
    if is_prose {
        byte_len / 4
    } else {
        byte_len / 3
    }
}

/// Estimate the number of tokens for a piece of content.
///
/// Code is charged one token per 3 bytes, prose one per 4: deliberately
/// pessimistic, to bias toward staying under budget.
pub fn estimate_tokens(content: &str, is_prose: bool) -> (r: usize)
    ensures
        r == spec_estimate_tokens(content.spec_bytes().len(), is_prose),
{
    let byte_count = content.as_bytes().len();
    if is_prose {
        byte_count / 4
    } else {
        byte_count / 3
    }
}

/// The (lower-cased) extension marks prose content.
pub open spec fn spec_is_prose_extension(ext: Seq<char>) -> bool {
    let l = lower_seq(ext);
    l == "md"@ || l == "txt"@ || l == "rst"@ || l == "adoc"@ || l == "textile"@ || l == "org"@
        || l == "wiki"@
}

/// Check if a file extension indicates prose content.
pub fn is_prose_extension(ext: &str) -> (r: bool)
    ensures
        r == spec_is_prose_extension(ext@),
{
    let l = lower_chars_of(ext);
    chars_eq_str(&l, "md") || chars_eq_str(&l, "txt") || chars_eq_str(&l, "rst") || chars_eq_str(
        &l,
        "adoc",
    ) || chars_eq_str(&l, "textile") || chars_eq_str(&l, "org") || chars_eq_str(&l, "wiki")
}

} // verus!
