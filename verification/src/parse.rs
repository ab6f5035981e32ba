//! Parsing of human-friendly numbers with magnitude suffixes: decimal (SI)
//! multipliers for abstract quantities such as token counts, and binary (IEC)
//! multipliers for byte sizes.
use vstd::prelude::*;

verus! {

use crate::text::{
    is_ascii_ws,
    chars_of,
    sub_chars,
    append_chars,
    string_from_chars,
};

/// `s` with leading ASCII whitespace removed.
pub open spec fn trim_front(s: Seq<char>) -> Seq<char>
    decreases s.len(),
{
    if s.len() > 0 && is_ascii_ws(s[0]) {
        trim_front(s.drop_first())
    } else {
        s
    }
}

/// `s` with trailing ASCII whitespace removed.
pub open spec fn trim_back(s: Seq<char>) -> Seq<char>
    decreases s.len(),
{
    if s.len() > 0 && is_ascii_ws(s.last()) {
        trim_back(s.drop_last())
    } else {
        s
    }
}

/// `s` with leading and trailing ASCII whitespace removed.
pub open spec fn spec_trim(s: Seq<char>) -> Seq<char> {
    trim_back(trim_front(s))
}

pub open spec fn is_digit(c: char) -> bool {
    '0' <= c && c <= '9'
}

/// `s` is a non-empty run of decimal digits.
pub open spec fn is_digit_seq(s: Seq<char>) -> bool {
    s.len() > 0 && forall|i: int| 0 <= i < s.len() ==> is_digit(#[trigger] s[i])
}

/// The value of a digit character; a non-digit counts zero.
pub open spec fn digit_of(c: char) -> nat {
    if is_digit(c) {
        (((c as u32) - 48) as nat)
    } else {
        0
    }
}

/// The value of a digit run, read in base ten.
pub open spec fn digits_val(s: Seq<char>) -> nat
    decreases s.len(),
{
    if s.len() == 0 {
        0
    } else {
        digits_val(s.drop_last()) * 10 + digit_of(s.last())
    }
}

/// The digit run and multiplier that a magnitude suffix selects.
pub open spec fn split_suffix(t: Seq<char>, k_mult: nat, m_mult: nat, g_mult: nat) -> (Seq<char>, nat) {
    if t.len() > 0 && (t.last() == 'k' || t.last() == 'K') {
        (t.drop_last(), k_mult)
    } else if t.len() > 0 && t.last() == 'M' {
        (t.drop_last(), m_mult)
    } else if t.len() > 0 && t.last() == 'G' {
        (t.drop_last(), g_mult)
    } else {
        (t, 1)
    }
}

/// The error message for a malformed number.
pub open spec fn invalid_msg(t: Seq<char>) -> Seq<char> {
    "invalid number: '"@ + t + "'"@
}

/// The error message for a number whose value does not fit.
pub open spec fn too_large_msg(t: Seq<char>) -> Seq<char> {
    "number too large: '"@ + t + "'"@
}

/// What parsing with the given multipliers and ceiling yields: the value, or
/// the exact error message.
pub open spec fn spec_parse_suffixed(
    input: Seq<char>,
    k_mult: nat,
    m_mult: nat,
    g_mult: nat,
    max: nat,
) -> Result<int, Seq<char>> {
    let t = spec_trim(input);
    if t.len() == 0 {
        Err("empty input"@)
    } else {
        let (digits, mult) = split_suffix(t, k_mult, m_mult, g_mult);
        if !is_digit_seq(digits) || digits_val(digits) > max {
            Err(invalid_msg(t))
        } else if digits_val(digits) * mult > max {
            Err(too_large_msg(t))
        } else {
            Ok((digits_val(digits) * mult) as int)
        }
    }
}

proof fn lemma_trim_front_at(s: Seq<char>, i: int)
    requires
        0 <= i <= s.len(),
        forall|j: int| 0 <= j < i ==> is_ascii_ws(s[j]),
        i < s.len() ==> !is_ascii_ws(s[i]),
    ensures
        trim_front(s) == s.subrange(i, s.len() as int),
    decreases i,
{
    if i == 0 {
        if s.len() > 0 && is_ascii_ws(s[0]) {
            assert(false);
        }
        assert(trim_front(s) =~= s.subrange(0, s.len() as int));
    } else {
        let d = s.drop_first();
        lemma_trim_front_at(d, i - 1);
        assert(trim_front(s) =~= s.subrange(i, s.len() as int));
    }
}

proof fn lemma_trim_back_at(s: Seq<char>, j: int)
    requires
        0 <= j <= s.len(),
        forall|k: int| j <= k < s.len() ==> is_ascii_ws(s[k]),
        j > 0 ==> !is_ascii_ws(s[j - 1]),
    ensures
        trim_back(s) == s.subrange(0, j),
    decreases s.len() - j,
{
    if j == s.len() {
        if s.len() > 0 && is_ascii_ws(s.last()) {
            assert(false);
        }
        assert(trim_back(s) =~= s.subrange(0, j));
    } else {
        let d = s.drop_last();
        lemma_trim_back_at(d, j);
        assert(trim_back(s) =~= s.subrange(0, j));
    }
}

/// A later digit prefix never has a smaller value.
proof fn lemma_digits_val_prefix(s: Seq<char>, i: int)
    requires
        0 <= i <= s.len(),
    ensures
        digits_val(s.subrange(0, i)) <= digits_val(s),
    decreases s.len() - i,
{
    if i == s.len() {
        assert(s.subrange(0, i) =~= s);
    } else {
        let d = s.subrange(0, s.len() - 1);
        assert(d =~= s.drop_last());
        assert(digits_val(s) == digits_val(d) * 10 + digit_of(s.last()));
        assert(digits_val(d) * 10 >= digits_val(d)) by (nonlinear_arith)
            requires digits_val(d) >= 0,
        ;
        lemma_digits_val_prefix(d, i);
        assert(d.subrange(0, i) =~= s.subrange(0, i));
    }
}

/// The trimmed copy of `v`.
fn trim_chars(v: &Vec<char>) -> (r: Vec<char>)
    ensures
        r@ == spec_trim(v@),
{
    let mut i: usize = 0;
    while i < v.len() && is_ws_exec(v[i])
        invariant
            0 <= i <= v@.len(),
            forall|j: int| 0 <= j < i ==> is_ascii_ws(v@[j]),
        decreases v@.len() - i,
    {
        i = i + 1;
    }
    proof {
        lemma_trim_front_at(v@, i as int);
    }
    let ghost f = trim_front(v@);
    let mut j: usize = v.len();
    while j > i && is_ws_exec(v[j - 1])
        invariant
            0 <= i <= j <= v@.len(),
            f == v@.subrange(i as int, v@.len() as int),
            forall|k: int| j <= k < v@.len() ==> is_ascii_ws(v@[k]),
        decreases j,
    {
        j = j - 1;
    }
    proof {
        assert(forall|k: int| j - i <= k < f.len() ==> is_ascii_ws(#[trigger] f[k]));
        if j > i {
            assert(!is_ascii_ws(f[j - i - 1]));
        }
        lemma_trim_back_at(f, j - i);
        assert(f.subrange(0, j - i) =~= v@.subrange(i as int, j as int));
    }
    sub_chars(v, i, j)
}

fn is_ws_exec(c: char) -> (r: bool)
    ensures
        r == is_ascii_ws(c),
{
    c == ' ' || c == '\t' || c == '\n' || c == '\r' || c == '\x0b' || c == '\x0c'
}

/// The value of a digit run as a `u64`, or `None` when the run is malformed
/// or its value exceeds `max`.
fn parse_u64_digits(v: &Vec<char>, max: u64) -> (r: Option<u64>)
    requires
        max >= 9,
    ensures
        (r matches Some(x) ==> is_digit_seq(v@) && x == digits_val(v@) && x <= max),
        (r is None ==> !is_digit_seq(v@) || digits_val(v@) > max),
{
    if v.len() == 0 {
        return None;
    }
    let mut acc: u64 = 0;
    let mut i: usize = 0;
    while i < v.len()
        invariant
            0 < v@.len(),
            0 <= i <= v@.len(),
            max >= 9,
            acc <= max,
            acc == digits_val(v@.subrange(0, i as int)),
            forall|j: int| 0 <= j < i ==> is_digit(#[trigger] v@[j]),
        decreases v@.len() - i,
    {
        let c = v[i];
        if !('0' <= c && c <= '9') {
            return None;
        }
        let d: u64 = ((c as u32) - 48) as u64;
        proof {
            assert(v@.subrange(0, i + 1).drop_last() =~= v@.subrange(0, i as int));
        }
        if acc > (max - d) / 10 {
            proof {
                let q = (max - d) / 10;
                assert((max - d) == q * 10 + (max - d) % 10) by {
                    vstd::arithmetic::div_mod::lemma_fundamental_div_mod((max - d) as int, 10);
                }
                assert(acc * 10 >= (q + 1) * 10) by (nonlinear_arith)
                    requires acc >= q + 1,
                ;
                assert(digits_val(v@.subrange(0, i + 1)) > max);
                lemma_digits_val_prefix(v@, i + 1);
            }
            return None;
        }
        proof {
            let q = (max - d) / 10;
            assert((max - d) == q * 10 + (max - d) % 10) by {
                vstd::arithmetic::div_mod::lemma_fundamental_div_mod((max - d) as int, 10);
            }
            assert(acc * 10 <= q * 10) by (nonlinear_arith)
                requires acc <= q,
            ;
        }
        acc = acc * 10 + d;
        i = i + 1;
    }
    proof {
        assert(v@.subrange(0, v@.len() as int) =~= v@);
    }
    Some(acc)
}

/// The message `prefix` + the offending input + a closing quote.
fn quoted_msg(prefix: &str, t: &Vec<char>) -> (s: String)
    ensures
        s@ == prefix@ + t@ + "'"@,
{
    let mut v = chars_of(prefix);
    append_chars(&mut v, t);
    let q = chars_of("'");
    append_chars(&mut v, &q);
    string_from_chars(&v)
}

/// Parses a trimmed input against the given multipliers and ceiling.
fn parse_suffixed(input: &str, k_mult: u64, m_mult: u64, g_mult: u64, max: u64) -> (r: Result<
    u64,
    String,
>)
    requires
        k_mult >= 1,
        m_mult >= 1,
        g_mult >= 1,
        max >= 9,
    ensures
        (r matches Ok(v) ==> spec_parse_suffixed(
            input@,
            k_mult as nat,
            m_mult as nat,
            g_mult as nat,
            max as nat,
        ) == Ok::<int, Seq<char>>(v as int) && v <= max),
        (r matches Err(e) ==> spec_parse_suffixed(
            input@,
            k_mult as nat,
            m_mult as nat,
            g_mult as nat,
            max as nat,
        ) == Err::<int, Seq<char>>(e@)),
{
    let iv = chars_of(input);
    let t = trim_chars(&iv);
    if t.len() == 0 {
        return Err(String::from_str("empty input"));
    }
    let last = t[t.len() - 1];
    let (digits_end, mult): (usize, u64) = if last == 'k' || last == 'K' {
        (t.len() - 1, k_mult)
    } else if last == 'M' {
        (t.len() - 1, m_mult)
    } else if last == 'G' {
        (t.len() - 1, g_mult)
    } else {
        (t.len(), 1)
    };
    let digits = sub_chars(&t, 0, digits_end);
    proof {
        if digits_end < t@.len() {
            assert(t@.subrange(0, digits_end as int) =~= t@.drop_last());
        } else {
            assert(t@.subrange(0, digits_end as int) =~= t@);
        }
    }
    match parse_u64_digits(&digits, max) {
        None => Err(quoted_msg("invalid number: '", &t)),
        Some(base) => {
            let q = max / mult;
            proof {
                vstd::arithmetic::div_mod::lemma_fundamental_div_mod(max as int, mult as int);
                assert(mult * q == q * mult) by (nonlinear_arith);
                assert(max == q * mult + max % mult);
            }
            if base > q {
                proof {
                    assert(base * mult >= (q + 1) * mult) by (nonlinear_arith)
                        requires base >= q + 1, mult >= 1,
                    ;
                    assert((q + 1) * mult == q * mult + mult) by (nonlinear_arith);
                    assert(base * mult > max);
                }
                Err(quoted_msg("number too large: '", &t))
            } else {
                proof {
                    assert(base * mult <= q * mult) by (nonlinear_arith)
                        requires base <= q, mult >= 1,
                    ;
                    assert(q * mult <= max);
                }
                Ok(base * mult)
            }
        },
    }
}

/// Parse a human-friendly number with decimal (SI) suffixes.
///
/// `k`/`K` means x1,000; `M` x1,000,000; `G` x1,000,000,000. Used for token
/// counts and other abstract quantities. The input is trimmed of ASCII
/// whitespace first. Empty input, a malformed digit run, and a value beyond
/// `usize::MAX` each yield the exact error message that
/// `spec_parse_suffixed` gives.
pub fn parse_decimal_number(input: &str) -> (r: Result<usize, String>)
    ensures
        (r matches Ok(v) ==> spec_parse_suffixed(
            input@,
            1000,
            1000000,
            1000000000,
            usize::MAX as nat,
        ) == Ok::<int, Seq<char>>(v as int)),
        (r matches Err(e) ==> spec_parse_suffixed(
            input@,
            1000,
            1000000,
            1000000000,
            usize::MAX as nat,
        ) == Err::<int, Seq<char>>(e@)),
{
    match parse_suffixed(input, 1000, 1000000, 1000000000, usize::MAX as u64) {
        Ok(v) => Ok(v as usize),
        Err(e) => Err(e),
    }
}

/// Parse a human-friendly number with binary (IEC) suffixes.
///
/// `k`/`K` means x1,024; `M` x1,048,576; `G` x1,073,741,824. Used for byte
/// sizes where binary multipliers are conventional.
pub fn parse_binary_number(input: &str) -> (r: Result<u64, String>)
    ensures
        (r matches Ok(v) ==> spec_parse_suffixed(
            input@,
            1024,
            1048576,
            1073741824,
            u64::MAX as nat,
        ) == Ok::<int, Seq<char>>(v as int)),
        (r matches Err(e) ==> spec_parse_suffixed(
            input@,
            1024,
            1048576,
            1073741824,
            u64::MAX as nat,
        ) == Err::<int, Seq<char>>(e@)),
{
    parse_suffixed(input, 1024, 1048576, 1073741824, u64::MAX)
}

} // verus!
