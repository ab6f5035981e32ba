//! Filtering predicates: secret-file detection, binary-extension detection,
//! and the reasons a file can be skipped.
use vstd::prelude::*;

verus! {

use crate::text::{
    lower_seq,
    seq_contains,
    seq_starts_with,
    after_last,
    chars_of,
    lower_chars,
    after_last_exec,
    contains_chars,
    starts_with_chars,
    chars_eq_str,
    sub_chars,
};

/// Why a file was left out of the output.
#[derive(Debug, Clone, PartialEq, Eq, Structural)]
pub enum SkipReason {
    Secret,
    Binary,
    TooLarge,
    Extension,
    Gitignore,
    ReadError,
    Match,
}

/// The summary label of a skip reason.
pub open spec fn spec_reason_label(r: SkipReason) -> Seq<char> {
    match r {
        SkipReason::Secret => "secret"@,
        SkipReason::Binary => "binary"@,
        SkipReason::TooLarge => "too large"@,
        SkipReason::Extension => "extension"@,
        SkipReason::Gitignore => "gitignore"@,
        SkipReason::ReadError => "read error"@,
        SkipReason::Match => "match"@,
    }
}

impl SkipReason {
    /// The label under which this reason is counted in the summary.
    pub fn label(&self) -> (s: String)
        ensures
            s@ == spec_reason_label(*self),
    {
        match self {
            SkipReason::Secret => String::from_str("secret"),
            SkipReason::Binary => String::from_str("binary"),
            SkipReason::TooLarge => String::from_str("too large"),
            SkipReason::Extension => String::from_str("extension"),
            SkipReason::Gitignore => String::from_str("gitignore"),
            SkipReason::ReadError => String::from_str("read error"),
            SkipReason::Match => String::from_str("match"),
        }
    }
}

/// The file name's extension: what follows the last dot, provided a dot
/// stands past the first position. A name whose only dot leads it (a hidden
/// file) has no extension.
pub open spec fn spec_extension(name: Seq<char>) -> Option<Seq<char>> {
    if exists|i: int| 1 <= i < name.len() && name[i] == '.' {
        Some(after_last(name, '.'))
    } else {
        None
    }
}

/// The lower-cased name matches a secret-file pattern: a known secret file
/// name, a `.env` variant, a key-material extension, or a sensitive
/// substring.
pub open spec fn spec_is_secret_file(path: Seq<char>) -> bool {
    let name = lower_seq(after_last(path, '/'));
    name == ".env"@ || name == "credentials.json"@ || name == "serviceaccount.json"@ || name
        == "id_rsa"@ || name == "id_dsa"@ || name == "id_ecdsa"@ || name == "id_ed25519"@
        || seq_starts_with(name, ".env"@) || (match spec_extension(after_last(path, '/')) {
        Some(e) => {
            let le = lower_seq(e);
            le == "key"@ || le == "pem"@ || le == "p12"@ || le == "pfx"@
        },
        None => false,
    }) || seq_contains(name, "secret"@) || seq_contains(name, "password"@) || seq_contains(
        name,
        "credential"@,
    )
}

/// The lower-cased extension marks a binary or otherwise non-text file.
pub open spec fn spec_is_binary_extension(path: Seq<char>) -> bool {
    match spec_extension(after_last(path, '/')) {
        Some(e) => {
            let l = lower_seq(e);
            l == "png"@ || l == "jpg"@ || l == "jpeg"@ || l == "gif"@ || l == "bmp"@ || l == "ico"@
                || l == "svg"@ || l == "webp"@ || l == "mp4"@ || l == "mp3"@ || l == "wav"@ || l
                == "avi"@ || l == "mov"@ || l == "flac"@ || l == "ogg"@ || l == "zip"@ || l
                == "tar"@ || l == "gz"@ || l == "7z"@ || l == "rar"@ || l == "bz2"@ || l == "xz"@
                || l == "exe"@ || l == "dll"@ || l == "so"@ || l == "dylib"@ || l == "bin"@ || l
                == "wasm"@ || l == "class"@ || l == "pyc"@ || l == "o"@ || l == "a"@ || l == "lib"@
                || l == "pdf"@ || l == "doc"@ || l == "docx"@ || l == "xls"@ || l == "xlsx"@ || l
                == "ppt"@ || l == "pptx"@
        },
        None => false,
    }
}

/// The extension of the file name `name`, or `None` where it has none.
fn extension_of(name: &Vec<char>) -> (r: Option<Vec<char>>)
    ensures
        (r matches Some(e) ==> spec_extension(name@) == Some(e@)),
        (r is None ==> spec_extension(name@) is None),
{
    let mut i: usize = 1;
    while i < name.len()
        invariant
            1 <= i,
            forall|j: int| 1 <= j < i ==> name@[j] != '.',
        decreases name@.len() - i,
    {
        if name[i] == '.' {
            proof {
                assert(1 <= i < name@.len() && name@[i as int] == '.');
            }
            return Some(after_last_exec(name, '.'));
        }
        i = i + 1;
    }
    proof {
        assert(forall|j: int| 1 <= j < name@.len() ==> name@[j] != '.');
    }
    None
}

/// Check if a file name matches secret patterns.
pub fn is_secret_file(path: &str) -> (r: bool)
    ensures
        r == spec_is_secret_file(path@),
{
    let pv = chars_of(path);
    let raw_name = after_last_exec(&pv, '/');
    let name = lower_chars(&raw_name);
    if chars_eq_str(&name, ".env") || chars_eq_str(&name, "credentials.json") || chars_eq_str(
        &name,
        "serviceaccount.json",
    ) || chars_eq_str(&name, "id_rsa") || chars_eq_str(&name, "id_dsa") || chars_eq_str(
        &name,
        "id_ecdsa",
    ) || chars_eq_str(&name, "id_ed25519") {
        return true;
    }
    let env_prefix = chars_of(".env");
    if starts_with_chars(&name, &env_prefix) {
        return true;
    }
    match extension_of(&raw_name) {
        Some(e) => {
            let le = lower_chars(&e);
            if chars_eq_str(&le, "key") || chars_eq_str(&le, "pem") || chars_eq_str(&le, "p12")
                || chars_eq_str(&le, "pfx") {
                return true;
            }
        },
        None => {},
    }
    let a = chars_of("secret");
    let b = chars_of("password");
    let c = chars_of("credential");
    contains_chars(&name, &a) || contains_chars(&name, &b) || contains_chars(&name, &c)
}

/// Check if a file extension indicates a binary file.
pub fn is_binary_extension(path: &str) -> (r: bool)
    ensures
        r == spec_is_binary_extension(path@),
{
    let pv = chars_of(path);
    let raw_name = after_last_exec(&pv, '/');
    match extension_of(&raw_name) {
        Some(e) => {
            let l = lower_chars(&e);
            chars_eq_str(&l, "png") || chars_eq_str(&l, "jpg") || chars_eq_str(&l, "jpeg")
                || chars_eq_str(&l, "gif") || chars_eq_str(&l, "bmp") || chars_eq_str(&l, "ico")
                || chars_eq_str(&l, "svg") || chars_eq_str(&l, "webp") || chars_eq_str(&l, "mp4")
                || chars_eq_str(&l, "mp3") || chars_eq_str(&l, "wav") || chars_eq_str(&l, "avi")
                || chars_eq_str(&l, "mov") || chars_eq_str(&l, "flac") || chars_eq_str(&l, "ogg")
                || chars_eq_str(&l, "zip") || chars_eq_str(&l, "tar") || chars_eq_str(&l, "gz")
                || chars_eq_str(&l, "7z") || chars_eq_str(&l, "rar") || chars_eq_str(&l, "bz2")
                || chars_eq_str(&l, "xz") || chars_eq_str(&l, "exe") || chars_eq_str(&l, "dll")
                || chars_eq_str(&l, "so") || chars_eq_str(&l, "dylib") || chars_eq_str(&l, "bin")
                || chars_eq_str(&l, "wasm") || chars_eq_str(&l, "class") || chars_eq_str(&l, "pyc")
                || chars_eq_str(&l, "o") || chars_eq_str(&l, "a") || chars_eq_str(&l, "lib")
                || chars_eq_str(&l, "pdf") || chars_eq_str(&l, "doc") || chars_eq_str(&l, "docx")
                || chars_eq_str(&l, "xls") || chars_eq_str(&l, "xlsx") || chars_eq_str(&l, "ppt")
                || chars_eq_str(&l, "pptx")
        },
        None => false,
    }
}

/// Whether the buffer holds a zero byte: the content heuristic for treating
/// a file as binary.
pub fn contains_null_byte(buf: &Vec<u8>) -> (r: bool)
    ensures
        r == (exists|i: int| 0 <= i < buf@.len() && buf@[i] == 0),
{
    let mut i: usize = 0;
    while i < buf.len()
        invariant
            0 <= i <= buf@.len(),
            forall|j: int| 0 <= j < i ==> buf@[j] != 0,
        decreases buf@.len() - i,
    {
        if buf[i] == 0 {
            return true;
        }
        i = i + 1;
    }
    false
}

/// The file name's extension, as a `String`: the executable face of
/// `spec_extension`, for callers that track per-extension statistics.
pub fn extension_of_path(path: &str) -> (r: Option<String>)
    ensures
        (r matches Some(e) ==> spec_extension(after_last(path@, '/')) == Some(e@)),
        (r is None ==> spec_extension(after_last(path@, '/')) is None),
{
    let pv = chars_of(path);
    let raw_name = after_last_exec(&pv, '/');
    match extension_of(&raw_name) {
        Some(e) => Some(crate::text::string_from_chars(&e)),
        None => None,
    }
}

} // verus!
