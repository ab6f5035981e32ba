//! The compression engine's public face: the supported languages, the
//! outcome type, and source compression with its strict fallback policy.
use vstd::prelude::*;

verus! {

use crate::text::{lower_seq, after_last, lower_chars_of, chars_eq_str};
use crate::filters::spec_extension;

/// Languages supported for compression.
#[derive(Debug, Clone, Copy, PartialEq, Eq, Structural)]
pub enum CompressLanguage {
    Rust,
    TypeScript,
    Tsx,
    JavaScript,
    Jsx,
    Python,
    Go,
    Java,
    CSharp,
    C,
    Cpp,
    Ruby,
    Php,
}

/// The language that a (lower-cased) file extension selects.
pub open spec fn spec_language_for_extension(ext: Seq<char>) -> Option<CompressLanguage> {
    let l = lower_seq(ext);
    if l == "rs"@ {
        Some(CompressLanguage::Rust)
    } else if l == "ts"@ {
        Some(CompressLanguage::TypeScript)
    } else if l == "tsx"@ {
        Some(CompressLanguage::Tsx)
    } else if l == "js"@ {
        Some(CompressLanguage::JavaScript)
    } else if l == "jsx"@ {
        Some(CompressLanguage::Jsx)
    } else if l == "py"@ {
        Some(CompressLanguage::Python)
    } else if l == "go"@ {
        Some(CompressLanguage::Go)
    } else if l == "java"@ {
        Some(CompressLanguage::Java)
    } else if l == "cs"@ {
        Some(CompressLanguage::CSharp)
    } else if l == "c"@ || l == "h"@ {
        Some(CompressLanguage::C)
    } else if l == "cpp"@ || l == "cc"@ || l == "cxx"@ || l == "hpp"@ || l == "hh"@ || l == "hxx"@ {
        Some(CompressLanguage::Cpp)
    } else if l == "rb"@ {
        Some(CompressLanguage::Ruby)
    } else if l == "php"@ {
        Some(CompressLanguage::Php)
    } else {
        None
    }
}

/// Map a file extension to a compressible language.
pub fn language_for_extension(ext: &str) -> (r: Option<CompressLanguage>)
    ensures
        r == spec_language_for_extension(ext@),
{
    let l = lower_chars_of(ext);
    if chars_eq_str(&l, "rs") {
        Some(CompressLanguage::Rust)
    } else if chars_eq_str(&l, "ts") {
        Some(CompressLanguage::TypeScript)
    } else if chars_eq_str(&l, "tsx") {
        Some(CompressLanguage::Tsx)
    } else if chars_eq_str(&l, "js") {
        Some(CompressLanguage::JavaScript)
    } else if chars_eq_str(&l, "jsx") {
        Some(CompressLanguage::Jsx)
    } else if chars_eq_str(&l, "py") {
        Some(CompressLanguage::Python)
    } else if chars_eq_str(&l, "go") {
        Some(CompressLanguage::Go)
    } else if chars_eq_str(&l, "java") {
        Some(CompressLanguage::Java)
    } else if chars_eq_str(&l, "cs") {
        Some(CompressLanguage::CSharp)
    } else if chars_eq_str(&l, "c") || chars_eq_str(&l, "h") {
        Some(CompressLanguage::C)
    } else if chars_eq_str(&l, "cpp") || chars_eq_str(&l, "cc") || chars_eq_str(&l, "cxx")
        || chars_eq_str(&l, "hpp") || chars_eq_str(&l, "hh") || chars_eq_str(&l, "hxx") {
        Some(CompressLanguage::Cpp)
    } else if chars_eq_str(&l, "rb") {
        Some(CompressLanguage::Ruby)
    } else if chars_eq_str(&l, "php") {
        Some(CompressLanguage::Php)
    } else {
        None
    }
}

/// The language that a path's extension selects.
pub open spec fn spec_language_for_path(path: Seq<char>) -> Option<CompressLanguage> {
    match spec_extension(after_last(path, '/')) {
        Some(e) => spec_language_for_extension(e),
        None => None,
    }
}

/// Detect language from a file path's extension.
pub fn language_for_path(path: &str) -> (r: Option<CompressLanguage>)
    ensures
        r == spec_language_for_path(path@),
{
    match crate::filters::extension_of_path(path) {
        Some(e) => language_for_extension(e.as_str()),
        None => None,
    }
}

/// Result of compressing a source file.
#[derive(Debug)]
pub enum CompressResult {
    /// Successfully compressed.
    Compressed(String),
    /// Fell back to full content (with an optional reason worth a warning).
    Fallback(String, Option<String>),
}


use vstd::utf8::{encode_utf8, valid_utf8};
use crate::tree::{ParseFailure, spec_parse};
use crate::engine::s_compress_tree;

/// The byte-level model of a compression outcome: what the returned text
/// encodes to, and the fallback reason.
pub enum CompressModel {
    Compressed(Seq<u8>),
    Fallback(Seq<u8>, Option<Seq<char>>),
}

/// The model of an outcome: its texts as their byte encodings.
pub open spec fn view_of(r: CompressResult) -> CompressModel {
    match r {
        CompressResult::Compressed(s) => CompressModel::Compressed(encode_utf8(s@)),
        CompressResult::Fallback(t, reason) => CompressModel::Fallback(
            encode_utf8(t@),
            match reason {
                Some(x) => Some(x@),
                None => None,
            },
        ),
    }
}

/// `s` without a leading byte-order mark.
pub open spec fn spec_strip_bom(s: Seq<char>) -> Seq<char> {
    if s.len() > 0 && s[0] == '\u{FEFF}' {
        s.drop_first()
    } else {
        s
    }
}

/// The warning reason each parse failure carries into a fallback.
pub open spec fn spec_fallback_reason(f: ParseFailure) -> Seq<char> {
    match f {
        ParseFailure::GrammarUnavailable => "failed to set parser language"@,
        ParseFailure::NullTree => "tree-sitter returned NULL tree"@,
        ParseFailure::HasErrorNodes => "parse tree contains ERROR nodes"@,
        ParseFailure::FaultDuringParse => "tree-sitter panic caught"@,
    }
}

/// What compressing a source under a language yields, at the byte level.
///
/// The byte-order mark is stripped first; empty input compresses to empty
/// output. A parse failure, a tree with error productions, and an empty
/// compression each fall back to the stripped original with a reason.
/// Compressed output at least as large as the original is replaced by the
/// original, silently. Output that is not well-formed text is likewise
/// replaced by the original.
pub open spec fn spec_compress_source(lang: CompressLanguage, source: Seq<char>) -> CompressModel {
    let stripped = spec_strip_bom(source);
    let sb = encode_utf8(stripped);
    if stripped.len() == 0 {
        CompressModel::Compressed(Seq::empty())
    } else {
        match spec_parse(lang, sb) {
            Err(f) => CompressModel::Fallback(sb, Some(spec_fallback_reason(f))),
            Ok(t) => {
                let out = s_compress_tree(lang, sb, t);
                if out.len() == 0 {
                    CompressModel::Fallback(sb, Some("compressed output is empty"@))
                } else if out.len() >= sb.len() {
                    CompressModel::Compressed(sb)
                } else if valid_utf8(out) {
                    CompressModel::Compressed(out)
                } else {
                    CompressModel::Compressed(sb)
                }
            },
        }
    }
}

/// Strip a byte-order mark if present.
pub fn strip_bom(source: &str) -> (r: &str)
    ensures
        r@ == spec_strip_bom(source@),
{
    let n = source.unicode_len();
    if n > 0 && source.get_char(0) == '\u{FEFF}' {
        let r = source.substring_char(1, n);
        proof {
            assert(r@ =~= source@.drop_first());
        }
        r
    } else {
        source
    }
}

/// Relies on String::from_utf8: `Some` exactly on well-formed text, whose
/// characters encode back to the input bytes.
#[verifier::external_body]
fn try_string_from_bytes(v: Vec<u8>) -> (r: Option<String>)
    ensures
        (r matches Some(s) ==> encode_utf8(s@) == v@),
        (valid_utf8(v@) ==> r is Some),
{
    String::from_utf8(v).ok()
}

/// The warning reason of a parse failure, as text.
fn fallback_reason(f: ParseFailure) -> (r: String)
    ensures
        r@ == spec_fallback_reason(f),
{
    match f {
        ParseFailure::GrammarUnavailable => String::from_str("failed to set parser language"),
        ParseFailure::NullTree => String::from_str("tree-sitter returned NULL tree"),
        ParseFailure::HasErrorNodes => String::from_str("parse tree contains ERROR nodes"),
        ParseFailure::FaultDuringParse => String::from_str("tree-sitter panic caught"),
    }
}

/// Compress a source file by extracting declarations and signatures.
///
/// Returns compressed output, or falls back to the full content under the
/// strict fallback policy that `spec_compress_source` states: a parse
/// failure, error productions in the tree, and empty compressed output each
/// fall back with a reason; compression that does not shrink the file
/// returns the original, with no warning.
pub fn compress_source(source: &str, lang: CompressLanguage) -> (r: CompressResult)
    ensures
        view_of(r) == spec_compress_source(lang, source@),
{
    let stripped = strip_bom(source);
    if stripped.is_empty() {
        let empty = String::new();
        proof {
            assert(encode_utf8(empty@) =~= Seq::<u8>::empty());
        }
        return CompressResult::Compressed(empty);
    }
    let bytes = stripped.as_bytes_vec();
    match crate::tree::parse(&bytes, lang) {
        Err(f) => CompressResult::Fallback(stripped.to_owned(), Some(fallback_reason(f))),
        Ok(t) => {
            let out = crate::engine::compress_tree(&bytes, &t, lang);
            if out.len() == 0 {
                CompressResult::Fallback(
                    stripped.to_owned(),
                    Some(String::from_str("compressed output is empty")),
                )
            } else if out.len() >= bytes.len() {
                CompressResult::Compressed(stripped.to_owned())
            } else {
                let ghost out_v = out@;
                match try_string_from_bytes(out) {
                    Some(sx) => {
                        proof {
                            vstd::utf8::encode_utf8_valid_utf8(sx@);
                        }
                        CompressResult::Compressed(sx)
                    },
                    None => {
                        proof {
                            assert(!valid_utf8(out_v));
                        }
                        CompressResult::Compressed(stripped.to_owned())
                    },
                }
            }
        },
    }
}

/// Fallback fidelity: every fallback outcome carries the stripped original,
/// byte for byte.
pub proof fn lemma_fallback_fidelity(lang: CompressLanguage, source: Seq<char>)
    ensures
        (spec_compress_source(lang, source) matches CompressModel::Fallback(t, _) ==> t
            == encode_utf8(spec_strip_bom(source))),
{
}

/// Shrink invariant: compressed output is strictly smaller than the
/// stripped input, or it is the stripped input itself, unchanged.
pub proof fn lemma_compressed_shrinks_or_identity(lang: CompressLanguage, source: Seq<char>)
    ensures
        (spec_compress_source(lang, source) matches CompressModel::Compressed(out) ==> out.len()
            < encode_utf8(spec_strip_bom(source)).len() || out == encode_utf8(
            spec_strip_bom(source),
        )),
{
    let stripped = spec_strip_bom(source);
    if stripped.len() == 0 {
        assert(encode_utf8(stripped) =~= Seq::<u8>::empty());
    }
}

/// Compression never expands: whatever the outcome, the returned text is
/// never longer than the stripped input.
pub proof fn lemma_compress_never_expands(lang: CompressLanguage, source: Seq<char>)
    ensures
        (spec_compress_source(lang, source) matches CompressModel::Compressed(out) ==> out.len()
            <= encode_utf8(spec_strip_bom(source)).len()),
        (spec_compress_source(lang, source) matches CompressModel::Fallback(t, _) ==> t.len()
            == encode_utf8(spec_strip_bom(source)).len()),
{
    lemma_compressed_shrinks_or_identity(lang, source);
    lemma_fallback_fidelity(lang, source);
}

/// Stripping a byte-order mark never lengthens the encoding.
proof fn lemma_strip_bom_len(s: Seq<char>)
    ensures
        encode_utf8(spec_strip_bom(s)).len() <= encode_utf8(s).len(),
{
    if s.len() > 0 && s[0] == '\u{FEFF}' {
        assert(encode_utf8(s) == vstd::utf8::encode_scalar(s[0] as u32) + encode_utf8(
            s.drop_first(),
        ));
    }
}

/// Recompression stability: running the compressor over any text, and so in
/// particular over earlier compressed output, never yields anything longer
/// than that text. Whatever the second parse does, the output is stable or
/// smaller, never re-expanding.
pub proof fn lemma_recompression_never_expands(lang: CompressLanguage, c: Seq<char>)
    ensures
        (spec_compress_source(lang, c) matches CompressModel::Compressed(out) ==> out.len()
            <= encode_utf8(c).len()),
        (spec_compress_source(lang, c) matches CompressModel::Fallback(t, _) ==> t.len()
            <= encode_utf8(c).len()),
{
    lemma_compress_never_expands(lang, c);
    lemma_strip_bom_len(c);
}

} // verus!
