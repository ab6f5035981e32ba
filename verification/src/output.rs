//! Run statistics and the framed output records: per-file tagged blocks and
//! the trailing summary.
use vstd::prelude::*;

verus! {

use vstd::string::StringSliceAdditionalSpecFns;
use vstd::string::StrSliceExecFns;
use vstd::utf8::encode_utf8;
use crate::text::{
    seq_str_lt,
    dec_seq,
    chars_of,
    append_chars,
    string_from_chars,
    dec_chars,
    str_lt,
};
use crate::filters::{SkipReason, spec_reason_label};

/// The expansion of one character under XML escaping.
pub open spec fn escape_char(c: char) -> Seq<char> {
    if c == '&' {
        "&amp;"@
    } else if c == '<' {
        "&lt;"@
    } else if c == '>' {
        "&gt;"@
    } else if c == '"' {
        "&quot;"@
    } else if c == '\'' {
        "&apos;"@
    } else {
        seq![c]
    }
}

/// `s` with XML special characters escaped.
pub open spec fn spec_escape_xml(s: Seq<char>) -> Seq<char>
    decreases s.len(),
{
    if s.len() == 0 {
        Seq::empty()
    } else {
        escape_char(s[0]) + spec_escape_xml(s.drop_first())
    }
}

proof fn lemma_escape_push(s: Seq<char>, c: char)
    ensures
        spec_escape_xml(s.push(c)) == spec_escape_xml(s) + escape_char(c),
    decreases s.len(),
{
    if s.len() == 0 {
        let t = s.push(c);
        assert(t.len() == 1);
        assert(t[0] == c);
        assert(t.drop_first() =~= Seq::<char>::empty());
        assert(spec_escape_xml(t.drop_first()) == Seq::<char>::empty());
        assert(spec_escape_xml(t) == escape_char(c) + spec_escape_xml(t.drop_first()));
        assert(spec_escape_xml(t) =~= spec_escape_xml(s) + escape_char(c));
    } else {
        assert(s.push(c)[0] == s[0]);
        assert(s.push(c).drop_first() =~= s.drop_first().push(c));
        lemma_escape_push(s.drop_first(), c);
        assert(spec_escape_xml(s.push(c)) =~= spec_escape_xml(s) + escape_char(c));
    }
}

/// Escape XML special characters in strings.
pub fn escape_xml(s: &str) -> (r: String)
    ensures
        r@ == spec_escape_xml(s@),
{
    let v = chars_of(s);
    let mut out: Vec<char> = Vec::new();
    let mut i: usize = 0;
    proof {
        assert(v@.subrange(0, 0) =~= Seq::<char>::empty());
    }
    while i < v.len()
        invariant
            v@ == s@,
            0 <= i <= v@.len(),
            out@ == spec_escape_xml(v@.subrange(0, i as int)),
        decreases v@.len() - i,
    {
        let c = v[i];
        if c == '&' {
            let e = chars_of("&amp;");
            append_chars(&mut out, &e);
        } else if c == '<' {
            let e = chars_of("&lt;");
            append_chars(&mut out, &e);
        } else if c == '>' {
            let e = chars_of("&gt;");
            append_chars(&mut out, &e);
        } else if c == '"' {
            let e = chars_of("&quot;");
            append_chars(&mut out, &e);
        } else if c == '\'' {
            let e = chars_of("&apos;");
            append_chars(&mut out, &e);
        } else {
            out.push(c);
            proof {
                assert(seq![c] =~= escape_char(c));
            }
        }
        proof {
            lemma_escape_push(v@.subrange(0, i as int), c);
            assert(v@.subrange(0, i as int).push(c) =~= v@.subrange(0, i + 1));
        }
        i = i + 1;
    }
    proof {
        assert(v@.subrange(0, v@.len() as int) =~= v@);
    }
    string_from_chars(&out)
}

/// Decimal digits grouped by thousands with commas.
pub open spec fn comma_grouped(d: Seq<char>) -> Seq<char>
    decreases d.len(),
{
    if d.len() <= 3 {
        d
    } else {
        comma_grouped(d.subrange(0, d.len() - 3)) + ","@ + d.subrange(d.len() - 3, d.len() as int)
    }
}

/// `n` rendered with exactly two digits, zero-padded.
pub open spec fn two_digits(n: nat) -> Seq<char> {
    if n < 10 {
        "0"@ + dec_seq(n)
    } else {
        dec_seq(n)
    }
}

/// A token count, rendered for the summary: numbers of ten thousand and
/// above are shown in tenths of `k` or `M` (rounding half upward), numbers
/// of a thousand and above are comma-grouped, smaller ones are plain.
pub open spec fn spec_format_tokens(t: nat) -> Seq<char> {
    if t >= 10000 {
        if t >= 1000000 {
            let tenths = (t + 50000) / 100000;
            dec_seq(tenths / 10) + "."@ + dec_seq(tenths % 10) + "M"@
        } else {
            let tenths = (t + 50) / 100;
            dec_seq(tenths / 10) + "."@ + dec_seq(tenths % 10) + "k"@
        }
    } else if t >= 1000 {
        comma_grouped(dec_seq(t))
    } else {
        dec_seq(t)
    }
}

/// A byte count, rendered for the summary: mebibytes or kibibytes with two
/// decimal places (in hundredths, rounding half upward), or plain bytes.
pub open spec fn spec_format_bytes(b: nat) -> Seq<char> {
    if b >= 1048576 {
        let h = (b / 1048576) * 100 + ((b % 1048576) * 100 + 524288) / 1048576;
        dec_seq(h / 100) + "."@ + two_digits(h % 100) + " MB"@
    } else if b >= 1024 {
        let h = (b / 1024) * 100 + ((b % 1024) * 100 + 512) / 1024;
        dec_seq(h / 100) + "."@ + two_digits(h % 100) + " KB"@
    } else {
        dec_seq(b) + " bytes"@
    }
}

/// Dividing after adding a multiple of the divisor shifts the quotient.
proof fn lemma_div_add_multiple(q: int, x: int, d: int)
    requires
        d > 0,
        x >= 0,
        q >= 0,
    ensures
        (d * q + x) / d == q + x / d,
{
    vstd::arithmetic::div_mod::lemma_fundamental_div_mod(x, d);
    assert(d * q + x == d * (q + x / d) + x % d) by (nonlinear_arith)
        requires
            x == d * (x / d) + x % d,
    ;
    vstd::arithmetic::div_mod::lemma_div_multiples_vanish_fancy(q + x / d, x % d, d);
}

/// The comma-grouped rendering of `n`.
fn comma_grouped_exec(n: usize) -> (r: Vec<char>)
    ensures
        r@ == comma_grouped(dec_seq(n as nat)),
{
    let d = dec_chars(n);
    let mut out: Vec<char> = Vec::new();
    comma_group_into(&d, &mut out);
    out
}

/// Appends the comma-grouped form of `d` to `out`.
fn comma_group_into(d: &Vec<char>, out: &mut Vec<char>)
    ensures
        final(out)@ == old(out)@ + comma_grouped(d@),
    decreases d@.len(),
{
    if d.len() <= 3 {
        append_chars(out, d);
    } else {
        let head = crate::text::sub_chars(d, 0, d.len() - 3);
        comma_group_into(&head, out);
        let comma = chars_of(",");
        append_chars(out, &comma);
        let tail = crate::text::sub_chars(d, d.len() - 3, d.len());
        append_chars(out, &tail);
    }
}

/// The summary rendering of a token count.
fn format_tokens_chars(t: usize) -> (r: Vec<char>)
    ensures
        r@ == spec_format_tokens(t as nat),
{
    if t >= 10000 {
        if t >= 1000000 {
            let q = t / 100000;
            let r = t % 100000;
            proof {
                vstd::arithmetic::div_mod::lemma_fundamental_div_mod(t as int, 100000);
                lemma_div_add_multiple(q as int, r + 50000, 100000);
                assert(q * 100000 + (r + 50000) == t + 50000) by (nonlinear_arith)
                    requires
                        t == 100000 * q + r,
                ;
            }
            let tenths = q + (r + 50000) / 100000;
            proof {
                assert(tenths == ((t + 50000) as nat) / 100000);
            }
            let mut out = dec_chars(tenths / 10);
            let dot = chars_of(".");
            append_chars(&mut out, &dot);
            let frac = dec_chars(tenths % 10);
            append_chars(&mut out, &frac);
            let m = chars_of("M");
            append_chars(&mut out, &m);
            out
        } else {
            let tenths = (t + 50) / 100;
            let mut out = dec_chars(tenths / 10);
            let dot = chars_of(".");
            append_chars(&mut out, &dot);
            let frac = dec_chars(tenths % 10);
            append_chars(&mut out, &frac);
            let k = chars_of("k");
            append_chars(&mut out, &k);
            out
        }
    } else if t >= 1000 {
        comma_grouped_exec(t)
    } else {
        dec_chars(t)
    }
}

/// `n` rendered with exactly two digits.
fn two_digits_chars(n: usize) -> (r: Vec<char>)
    requires
        n < 100,
    ensures
        r@ == two_digits(n as nat),
{
    if n < 10 {
        let mut out = chars_of("0");
        let d = dec_chars(n);
        append_chars(&mut out, &d);
        out
    } else {
        dec_chars(n)
    }
}

/// The summary rendering of a byte count.
fn format_bytes_chars(b: usize) -> (r: Vec<char>)
    ensures
        r@ == spec_format_bytes(b as nat),
{
    if b >= 1048576 {
        let whole = b / 1048576;
        let frac = b % 1048576;
        proof {
            assert(whole * 100 + 100 <= usize::MAX) by (nonlinear_arith)
                requires
                    whole == b as nat / 1048576,
                    b <= usize::MAX,
                    usize::MAX >= 4294967295,
            ;
        }
        let h = whole * 100 + (frac * 100 + 524288) / 1048576;
        let mut out = dec_chars(h / 100);
        let dot = chars_of(".");
        append_chars(&mut out, &dot);
        let td = two_digits_chars(h % 100);
        append_chars(&mut out, &td);
        let unit = chars_of(" MB");
        append_chars(&mut out, &unit);
        out
    } else if b >= 1024 {
        let whole = b / 1024;
        let frac = b % 1024;
        let h = whole * 100 + (frac * 100 + 512) / 1024;
        let mut out = dec_chars(h / 100);
        let dot = chars_of(".");
        append_chars(&mut out, &dot);
        let td = two_digits_chars(h % 100);
        append_chars(&mut out, &td);
        let unit = chars_of(" KB");
        append_chars(&mut out, &unit);
        out
    } else {
        let mut out = dec_chars(b);
        let unit = chars_of(" bytes");
        append_chars(&mut out, &unit);
        out
    }
}

/// Sort order of summary entries: larger counts first, ties broken by key
/// ascending.
pub open spec fn spec_pair_lt(a: (String, usize), b: (String, usize)) -> bool {
    b.1 < a.1 || (a.1 == b.1 && seq_str_lt(a.0@, b.0@))
}

/// `p` inserted into `sorted` before the first entry it precedes.
pub open spec fn spec_insert_pair(sorted: Seq<(String, usize)>, p: (String, usize)) -> Seq<
    (String, usize),
>
    decreases sorted.len(),
{
    if sorted.len() == 0 {
        seq![p]
    } else if spec_pair_lt(p, sorted[0]) {
        seq![p] + sorted
    } else {
        seq![sorted[0]] + spec_insert_pair(sorted.drop_first(), p)
    }
}

/// The entries of `m`, insertion-sorted by count descending then key
/// ascending.
pub open spec fn spec_sort_pairs(m: Seq<(String, usize)>) -> Seq<(String, usize)>
    decreases m.len(),
{
    if m.len() == 0 {
        m
    } else {
        spec_insert_pair(spec_sort_pairs(m.drop_last()), m.last())
    }
}

fn pair_lt_exec(a: &(String, usize), b: &(String, usize)) -> (r: bool)
    ensures
        r == spec_pair_lt(*a, *b),
{
    if a.1 > b.1 {
        true
    } else if a.1 == b.1 {
        str_lt(a.0.as_str(), b.0.as_str())
    } else {
        false
    }
}

proof fn lemma_insert_pair_at(s: Seq<(String, usize)>, p: (String, usize), j: int)
    requires
        0 <= j <= s.len(),
        forall|k: int| 0 <= k < j ==> !spec_pair_lt(p, s[k]),
        j < s.len() ==> spec_pair_lt(p, s[j]),
    ensures
        spec_insert_pair(s, p) == s.subrange(0, j) + seq![p] + s.subrange(j, s.len() as int),
    decreases s.len(),
{
    if s.len() == 0 {
        assert(spec_insert_pair(s, p) =~= s.subrange(0, j) + seq![p] + s.subrange(
            j,
            s.len() as int,
        ));
    } else if j == 0 {
        assert(spec_insert_pair(s, p) =~= s.subrange(0, j) + seq![p] + s.subrange(
            j,
            s.len() as int,
        ));
    } else {
        let d = s.drop_first();
        assert(forall|k: int| 0 <= k < j - 1 ==> !spec_pair_lt(p, #[trigger] d[k]));
        lemma_insert_pair_at(d, p, j - 1);
        assert(spec_insert_pair(s, p) =~= s.subrange(0, j) + seq![p] + s.subrange(
            j,
            s.len() as int,
        ));
    }
}

/// `m`, sorted for the summary.
fn sort_pairs(m: &Vec<(String, usize)>) -> (r: Vec<(String, usize)>)
    ensures
        r@ == spec_sort_pairs(m@),
{
    let mut r: Vec<(String, usize)> = Vec::new();
    let mut i: usize = 0;
    proof {
        assert(m@.subrange(0, 0) =~= Seq::<(String, usize)>::empty());
    }
    while i < m.len()
        invariant
            0 <= i <= m@.len(),
            r@ == spec_sort_pairs(m@.subrange(0, i as int)),
        decreases m@.len() - i,
    {
        let p = (m[i].0.clone(), m[i].1);
        proof {
            assert(p == m@[i as int]);
        }
        let mut j: usize = 0;
        while j < r.len() && !pair_lt_exec(&p, &r[j])
            invariant
                0 <= j <= r@.len(),
                forall|k: int| 0 <= k < j ==> !spec_pair_lt(p, #[trigger] r@[k]),
            decreases r@.len() - j,
        {
            j = j + 1;
        }
        proof {
            lemma_insert_pair_at(r@, p, j as int);
        }
        let ghost old_r = r@;
        r.insert(j, p);
        proof {
            assert(old_r.insert(j as int, p) =~= old_r.subrange(0, j as int) + seq![p]
                + old_r.subrange(j as int, old_r.len() as int));
            assert(m@.subrange(0, i + 1).drop_last() =~= m@.subrange(0, i as int));
            assert(m@.subrange(0, i + 1).last() == m@[i as int]);
        }
        i = i + 1;
    }
    proof {
        assert(m@.subrange(0, m@.len() as int) =~= m@);
    }
    r
}

/// Accumulating counters for one run.
#[derive(Debug)]
pub struct Statistics {
    pub total_files: usize,
    pub included_files: usize,
    pub skipped_by_reason: Vec<(String, usize)>,
    pub included_by_extension: Vec<(String, usize)>,
    pub output_size: usize,
    pub compressed_files: usize,
    pub token_budget: Option<usize>,
    pub tokens_used: usize,
    pub excluded_by_budget: Vec<String>,
}

/// Each key occurs at most once.
pub open spec fn unique_keys(m: Seq<(String, usize)>) -> bool {
    forall|i: int, j: int|
        0 <= i < m.len() && 0 <= j < m.len() && i != j ==> (#[trigger] m[i]).0@ != (
        #[trigger] m[j]).0@
}

/// The sum of the counts of `m`.
pub open spec fn sum_counts(m: Seq<(String, usize)>) -> nat
    decreases m.len(),
{
    if m.len() == 0 {
        0
    } else {
        sum_counts(m.drop_last()) + m.last().1 as nat
    }
}

/// Well-formedness of the counters: keys unique, and every count bounded by
/// the file total, so that counting can never overflow.
pub open spec fn stats_wf(s: Statistics) -> bool {
    &&& unique_keys(s.skipped_by_reason@)
    &&& unique_keys(s.included_by_extension@)
    &&& sum_counts(s.skipped_by_reason@) <= s.total_files
    &&& forall|i: int|
        0 <= i < s.included_by_extension@.len() ==> (#[trigger] s.included_by_extension@[i]).1
            <= s.total_files
}

/// `m` with the count under `key` one higher; a missing key is appended with
/// count one.
pub open spec fn spec_bumped(
    m: Seq<(String, usize)>,
    r: Seq<(String, usize)>,
    key: Seq<char>,
) -> bool {
    if exists|i: int| 0 <= i < m.len() && (#[trigger] m[i]).0@ == key {
        exists|i: int|
            0 <= i < m.len() && (#[trigger] m[i]).0@ == key && r == m.update(
                i,
                (m[i].0, (m[i].1 + 1) as usize),
            )
    } else {
        r.len() == m.len() + 1 && r.subrange(0, m.len() as int) == m && r.last().0@ == key
            && r.last().1 == 1
    }
}

/// Bumps `key` in the association list `m`.
fn bump_count(m: &mut Vec<(String, usize)>, key: String, bound: Ghost<nat>)
    requires
        unique_keys(old(m)@),
        forall|i: int| 0 <= i < old(m)@.len() ==> (#[trigger] old(m)@[i]).1 <= bound@,
        bound@ < usize::MAX,
    ensures
        spec_bumped(old(m)@, final(m)@, key@),
        unique_keys(final(m)@),
        final(m)@.len() >= 1,
        forall|i: int| 0 <= i < final(m)@.len() ==> (#[trigger] final(m)@[i]).1 <= bound@ + 1,
{
    let mut i: usize = 0;
    while i < m.len()
        invariant
            0 <= i <= m@.len(),
            m@ == old(m)@,
            unique_keys(old(m)@),
            forall|j: int| 0 <= j < old(m)@.len() ==> (#[trigger] old(m)@[j]).1 <= bound@,
            bound@ < usize::MAX,
            forall|j: int| 0 <= j < i ==> (#[trigger] m@[j]).0@ != key@,
        decreases m@.len() - i,
    {
        let hit = {
            let le = crate::text::chars_of(m[i].0.as_str());
            let ke = crate::text::chars_of(key.as_str());
            crate::text::chars_eq(&le, &ke)
        };
        if hit {
            proof {
                assert(old(m)@[i as int].1 <= bound@);
            }
            let c = m[i].1;
            let k2 = m[i].0.clone();
            m.set(i, (k2, c + 1));
            proof {
                assert(m@ =~= old(m)@.update(i as int, (old(m)@[i as int].0, (old(m)@[i as int].1
                    + 1) as usize)));
                assert(forall|j: int| 0 <= j < m@.len() ==> (#[trigger] m@[j]).0 == old(m)@[j].0);
                assert forall|a: int, b: int|
                    0 <= a < m@.len() && 0 <= b < m@.len() && a != b implies (#[trigger] m@[a]).0@
                    != (#[trigger] m@[b]).0@ by {
                    assert(m@[a].0 == old(m)@[a].0);
                    assert(m@[b].0 == old(m)@[b].0);
                }
            }
            return ;
        }
        i = i + 1;
    }
    m.push((key, 1));
    proof {
        assert(m@.subrange(0, old(m)@.len() as int) =~= old(m)@);
    }
}

/// The sum of counts grows by one under a bump.
proof fn lemma_sum_counts_bumped(m: Seq<(String, usize)>, r: Seq<(String, usize)>, key: Seq<char>)
    requires
        spec_bumped(m, r, key),
        forall|i: int| 0 <= i < m.len() ==> (#[trigger] m[i]).1 < usize::MAX,
    ensures
        sum_counts(r) == sum_counts(m) + 1,
{
    if exists|i: int| 0 <= i < m.len() && (#[trigger] m[i]).0@ == key {
        let i = choose|i: int| 0 <= i < m.len() && (#[trigger] m[i]).0@ == key && r == m.update(
            i,
            (m[i].0, (m[i].1 + 1) as usize),
        );
        lemma_sum_counts_update(m, i, (m[i].0, (m[i].1 + 1) as usize));
    } else {
        assert(r.drop_last() =~= m);
    }
}

proof fn lemma_sum_counts_update(m: Seq<(String, usize)>, i: int, p: (String, usize))
    requires
        0 <= i < m.len(),
    ensures
        sum_counts(m.update(i, p)) == sum_counts(m) - m[i].1 + p.1,
    decreases m.len(),
{
    if i == m.len() - 1 {
        assert(m.update(i, p).drop_last() =~= m.drop_last());
    } else {
        assert(m.update(i, p).drop_last() =~= m.drop_last().update(i, p));
        lemma_sum_counts_update(m.drop_last(), i, p);
    }
}

impl Default for Statistics {
    /// Fresh counters: everything zero and empty.
    fn default() -> (s: Statistics)
        ensures
            s.total_files == 0,
            s.included_files == 0,
            s.skipped_by_reason@ =~= Seq::<(String, usize)>::empty(),
            s.included_by_extension@ =~= Seq::<(String, usize)>::empty(),
            s.output_size == 0,
            s.compressed_files == 0,
            s.token_budget is None,
            s.tokens_used == 0,
            s.excluded_by_budget@ =~= Seq::<String>::empty(),
            stats_wf(s),
    {
        Statistics::new()
    }
}

impl Statistics {
    /// Fresh counters: everything zero and empty.
    pub fn new() -> (s: Statistics)
        ensures
            s.total_files == 0,
            s.included_files == 0,
            s.skipped_by_reason@ =~= Seq::<(String, usize)>::empty(),
            s.included_by_extension@ =~= Seq::<(String, usize)>::empty(),
            s.output_size == 0,
            s.compressed_files == 0,
            s.token_budget is None,
            s.tokens_used == 0,
            s.excluded_by_budget@ =~= Seq::<String>::empty(),
            stats_wf(s),
    {
        let s = Statistics {
            total_files: 0,
            included_files: 0,
            skipped_by_reason: Vec::new(),
            included_by_extension: Vec::new(),
            output_size: 0,
            compressed_files: 0,
            token_budget: None,
            tokens_used: 0,
            excluded_by_budget: Vec::new(),
        };
        s
    }

    /// Counts one included file under its extension (or "no extension").
    pub fn add_included(&mut self, extension: Option<&str>)
        requires
            stats_wf(*old(self)),
            old(self).total_files < usize::MAX,
        ensures
            stats_wf(*final(self)),
            final(self).total_files == old(self).total_files + 1,
            final(self).included_files == old(self).included_files + 1 || (old(
                self,
            ).included_files == usize::MAX && final(self).included_files == usize::MAX),
            spec_bumped(
                old(self).included_by_extension@,
                final(self).included_by_extension@,
                match extension {
                    Some(e) => e@,
                    None => "no extension"@,
                },
            ),
            final(self).skipped_by_reason == old(self).skipped_by_reason,
            final(self).output_size == old(self).output_size,
            final(self).compressed_files == old(self).compressed_files,
            final(self).token_budget == old(self).token_budget,
            final(self).tokens_used == old(self).tokens_used,
            final(self).excluded_by_budget == old(self).excluded_by_budget,
    {
        self.total_files = self.total_files + 1;
        if self.included_files < usize::MAX {
            self.included_files = self.included_files + 1;
        }
        let key: String = match extension {
            Some(e) => String::from_str(e),
            None => String::from_str("no extension"),
        };
        bump_count(&mut self.included_by_extension, key, Ghost((self.total_files - 1) as nat));
    }

    /// Adds the on-disk estimate for one file: its size plus the framing
    /// overhead of roughly 25 bytes and the path.
    pub fn add_file_size_estimate(&mut self, file_size: u64, path_length: usize)
        requires
            old(self).output_size + file_size + 25 + path_length <= usize::MAX,
        ensures
            final(self).output_size == old(self).output_size + file_size + 25 + path_length,
            *final(self) == (Statistics { output_size: final(self).output_size, ..*old(self) }),
    {
        let overhead = 25 + path_length;
        self.output_size = self.output_size + (file_size as usize) + overhead;
    }

    /// Counts one compressed file.
    pub fn add_compressed(&mut self)
        requires
            old(self).compressed_files < usize::MAX,
        ensures
            final(self).compressed_files == old(self).compressed_files + 1,
            *final(self) == (Statistics { compressed_files: final(self).compressed_files, ..*old(
                self,
            ) }),
    {
        self.compressed_files = self.compressed_files + 1;
    }

    /// Counts one skipped file under its reason.
    pub fn add_skipped(&mut self, reason: SkipReason)
        requires
            stats_wf(*old(self)),
            old(self).total_files < usize::MAX,
        ensures
            stats_wf(*final(self)),
            final(self).total_files == old(self).total_files + 1,
            spec_bumped(
                old(self).skipped_by_reason@,
                final(self).skipped_by_reason@,
                spec_reason_label(reason),
            ),
            sum_counts(final(self).skipped_by_reason@) == sum_counts(old(self).skipped_by_reason@)
                + 1,
            final(self).included_files == old(self).included_files,
            final(self).included_by_extension == old(self).included_by_extension,
            final(self).output_size == old(self).output_size,
            final(self).compressed_files == old(self).compressed_files,
            final(self).token_budget == old(self).token_budget,
            final(self).tokens_used == old(self).tokens_used,
            final(self).excluded_by_budget == old(self).excluded_by_budget,
    {
        self.total_files = self.total_files + 1;
        let key = reason.label();
        proof {
            lemma_sum_bound(self.skipped_by_reason@);
        }
        bump_count(&mut self.skipped_by_reason, key, Ghost((self.total_files - 1) as nat));
        proof {
            lemma_sum_counts_bumped(
                old(self).skipped_by_reason@,
                self.skipped_by_reason@,
                spec_reason_label(reason),
            );
        }
    }

    /// Adds bytes already written to the output total.
    pub fn add_output_bytes(&mut self, bytes: usize)
        requires
            old(self).output_size + bytes <= usize::MAX,
        ensures
            final(self).output_size == old(self).output_size + bytes,
            *final(self) == (Statistics { output_size: final(self).output_size, ..*old(self) }),
    {
        self.output_size = self.output_size + bytes;
    }

    /// The number of skipped files, over all reasons.
    pub fn total_skipped(&self) -> (r: usize)
        requires
            stats_wf(*self),
        ensures
            r == sum_counts(self.skipped_by_reason@),
    {
        let mut acc: usize = 0;
        let mut i: usize = 0;
        let m = &self.skipped_by_reason;
        proof {
            assert(sum_prefix(m@, 0) == 0);
        }
        while i < m.len()
            invariant
                stats_wf(*self),
                m == &self.skipped_by_reason,
                0 <= i <= m@.len(),
                acc == sum_prefix(m@, i as int),
                acc <= sum_counts(m@),
            decreases m@.len() - i,
        {
            proof {
                lemma_sum_prefix_step(m@, i as int);
                lemma_sum_prefix_bound(m@, i + 1);
            }
            acc = acc + m[i].1;
            i = i + 1;
        }
        proof {
            assert(m@.subrange(0, m@.len() as int) =~= m@);
        }
        acc
    }

    /// The rough token estimate of the output written so far.
    pub fn estimated_tokens(&self) -> (r: usize)
        ensures
            r == self.output_size / 4,
    {
        self.output_size / 4
    }
}

/// The sum of the first `i` counts.
pub open spec fn sum_prefix(m: Seq<(String, usize)>, i: int) -> nat {
    sum_counts(m.subrange(0, i))
}

proof fn lemma_sum_prefix_step(m: Seq<(String, usize)>, i: int)
    requires
        0 <= i < m.len(),
    ensures
        sum_prefix(m, i + 1) == sum_prefix(m, i) + m[i].1,
{
    assert(m.subrange(0, i + 1).drop_last() =~= m.subrange(0, i));
}

proof fn lemma_sum_prefix_bound(m: Seq<(String, usize)>, i: int)
    requires
        0 <= i <= m.len(),
    ensures
        sum_prefix(m, i) <= sum_counts(m),
    decreases m.len() - i,
{
    if i == m.len() {
        assert(m.subrange(0, i) =~= m);
    } else {
        lemma_sum_prefix_step(m, i);
        lemma_sum_prefix_bound(m, i + 1);
    }
}

proof fn lemma_sum_bound(m: Seq<(String, usize)>)
    ensures
        forall|i: int| 0 <= i < m.len() ==> (#[trigger] m[i]).1 <= sum_counts(m),
    decreases m.len(),
{
    if m.len() > 0 {
        lemma_sum_bound(m.drop_last());
        assert forall|i: int| 0 <= i < m.len() implies (#[trigger] m[i]).1 <= sum_counts(m) by {
            if i < m.len() - 1 {
                assert(m.drop_last()[i] == m[i]);
            }
        }
    }
}


/// The summary fragment for one extension entry.
pub open spec fn spec_ext_entry(p: (String, usize)) -> Seq<char> {
    if p.0@ == "no extension"@ {
        dec_seq(p.1 as nat) + " without extension"@
    } else {
        dec_seq(p.1 as nat) + " ."@ + p.0@
    }
}

/// The summary fragment for one skip-reason entry.
pub open spec fn spec_reason_entry(p: (String, usize)) -> Seq<char> {
    dec_seq(p.1 as nat) + " "@ + p.0@
}

/// The entries rendered by `f`, joined with commas.
pub open spec fn spec_join(ps: Seq<(String, usize)>, f: spec_fn((String, usize)) -> Seq<char>) -> Seq<char>
    decreases ps.len(),
{
    if ps.len() == 0 {
        Seq::empty()
    } else if ps.len() == 1 {
        f(ps[0])
    } else {
        f(ps[0]) + ", "@ + spec_join(ps.drop_first(), f)
    }
}

proof fn lemma_join_push(ps: Seq<(String, usize)>, p: (String, usize), f: spec_fn((String, usize)) -> Seq<char>)
    ensures
        ps.len() == 0 ==> spec_join(ps.push(p), f) == f(p),
        ps.len() > 0 ==> spec_join(ps.push(p), f) == spec_join(ps, f) + ", "@ + f(p),
    decreases ps.len(),
{
    let t = ps.push(p);
    if ps.len() == 0 {
        assert(t.len() == 1);
        assert(t[0] == p);
    } else {
        assert(t[0] == ps[0]);
        assert(t.drop_first() =~= ps.drop_first().push(p));
        lemma_join_push(ps.drop_first(), p, f);
        if ps.len() == 1 {
            assert(spec_join(t, f) =~= spec_join(ps, f) + ", "@ + f(p));
        } else {
            assert(spec_join(t, f) =~= spec_join(ps, f) + ", "@ + f(p));
        }
    }
}

/// Appends one extension entry to `out`.
fn push_ext_entry(out: &mut Vec<char>, p: &(String, usize))
    ensures
        final(out)@ == old(out)@ + spec_ext_entry(*p),
{
    let d = dec_chars(p.1);
    append_chars(out, &d);
    let name = chars_of(p.0.as_str());
    let none_key = chars_of("no extension");
    if crate::text::chars_eq(&name, &none_key) {
        let t = chars_of(" without extension");
        append_chars(out, &t);
    } else {
        let t = chars_of(" .");
        append_chars(out, &t);
        append_chars(out, &name);
    }
}

/// Appends one skip-reason entry to `out`.
fn push_reason_entry(out: &mut Vec<char>, p: &(String, usize))
    ensures
        final(out)@ == old(out)@ + spec_reason_entry(*p),
{
    let d = dec_chars(p.1);
    append_chars(out, &d);
    let sp = chars_of(" ");
    append_chars(out, &sp);
    let name = chars_of(p.0.as_str());
    append_chars(out, &name);
}

/// Appends the comma-joined extension entries.
fn push_joined_exts(out: &mut Vec<char>, ps: &Vec<(String, usize)>)
    ensures
        final(out)@ == old(out)@ + spec_join(ps@, |p: (String, usize)| spec_ext_entry(p)),
{
    let ghost f = |p: (String, usize)| spec_ext_entry(p);
    let mut i: usize = 0;
    proof {
        assert(ps@.subrange(0, 0) =~= Seq::<(String, usize)>::empty());
    }
    while i < ps.len()
        invariant
            0 <= i <= ps@.len(),
            f == (|p: (String, usize)| spec_ext_entry(p)),
            out@ == old(out)@ + spec_join(ps@.subrange(0, i as int), f),
        decreases ps@.len() - i,
    {
        if i > 0 {
            let sep = chars_of(", ");
            append_chars(out, &sep);
        }
        push_ext_entry(out, &ps[i]);
        proof {
            lemma_join_push(ps@.subrange(0, i as int), ps@[i as int], f);
            assert(ps@.subrange(0, i as int).push(ps@[i as int]) =~= ps@.subrange(0, i + 1));
        }
        i = i + 1;
    }
    proof {
        assert(ps@.subrange(0, ps@.len() as int) =~= ps@);
    }
}

/// Appends the comma-joined skip-reason entries.
fn push_joined_reasons(out: &mut Vec<char>, ps: &Vec<(String, usize)>)
    ensures
        final(out)@ == old(out)@ + spec_join(ps@, |p: (String, usize)| spec_reason_entry(p)),
{
    let ghost f = |p: (String, usize)| spec_reason_entry(p);
    let mut i: usize = 0;
    proof {
        assert(ps@.subrange(0, 0) =~= Seq::<(String, usize)>::empty());
    }
    while i < ps.len()
        invariant
            0 <= i <= ps@.len(),
            f == (|p: (String, usize)| spec_reason_entry(p)),
            out@ == old(out)@ + spec_join(ps@.subrange(0, i as int), f),
        decreases ps@.len() - i,
    {
        if i > 0 {
            let sep = chars_of(", ");
            append_chars(out, &sep);
        }
        push_reason_entry(out, &ps[i]);
        proof {
            lemma_join_push(ps@.subrange(0, i as int), ps@[i as int], f);
            assert(ps@.subrange(0, i as int).push(ps@[i as int]) =~= ps@.subrange(0, i + 1));
        }
        i = i + 1;
    }
    proof {
        assert(ps@.subrange(0, ps@.len() as int) =~= ps@);
    }
}

/// The complete summary text for one run: totals, the extension breakdown
/// (largest counts first, ties by name), compression and skip counts, budget
/// usage, and the output-size estimate.
pub open spec fn spec_summary(s: Statistics) -> Seq<char> {
    let base = "<summary>\nTotal files: "@ + dec_seq(s.total_files as nat) + "\nIncluded: "@
        + dec_seq(s.included_files as nat);
    let with_ext = if s.included_by_extension@.len() > 0 {
        base + " ("@ + spec_join(
            spec_sort_pairs(s.included_by_extension@),
            |p: (String, usize)| spec_ext_entry(p),
        ) + ")"@
    } else {
        base
    };
    let a = with_ext + "\n"@;
    let b = if s.compressed_files > 0 {
        a + "Compressed: "@ + dec_seq(s.compressed_files as nat) + " files\n"@
    } else {
        a
    };
    let c = if sum_counts(s.skipped_by_reason@) > 0 {
        b + "Skipped: "@ + dec_seq(sum_counts(s.skipped_by_reason@)) + " ("@ + spec_join(
            spec_sort_pairs(s.skipped_by_reason@),
            |p: (String, usize)| spec_reason_entry(p),
        ) + ")"@ + "\n"@
    } else {
        b
    };
    let d = match s.token_budget {
        Some(budget) => {
            let line = c + "Token budget: "@ + spec_format_tokens(s.tokens_used as nat) + " / "@
                + spec_format_tokens(budget as nat) + " used\n"@;
            if s.excluded_by_budget@.len() > 0 {
                line + "Excluded by budget: "@ + dec_seq(s.excluded_by_budget@.len()) + " files\n"@
            } else {
                line
            }
        },
        None => c,
    };
    let e = if s.output_size > 0 {
        d + "Output size: "@ + spec_format_bytes(s.output_size as nat) + " (~"@
            + spec_format_tokens((s.output_size / 4) as nat) + " tokens)\n"@
    } else {
        d
    };
    e + "</summary>\n"@
}

impl Statistics {
    /// The rendered summary.
    pub fn format_summary(&self) -> (r: String)
        requires
            stats_wf(*self),
        ensures
            r@ == spec_summary(*self),
    {
        let mut out = chars_of("<summary>\nTotal files: ");
        let d1 = dec_chars(self.total_files);
        append_chars(&mut out, &d1);
        let t1 = chars_of("\nIncluded: ");
        append_chars(&mut out, &t1);
        let d2 = dec_chars(self.included_files);
        append_chars(&mut out, &d2);
        if self.included_by_extension.len() > 0 {
            let t2 = chars_of(" (");
            append_chars(&mut out, &t2);
            let sorted = sort_pairs(&self.included_by_extension);
            push_joined_exts(&mut out, &sorted);
            let t3 = chars_of(")");
            append_chars(&mut out, &t3);
        }
        let nl = chars_of("\n");
        append_chars(&mut out, &nl);
        if self.compressed_files > 0 {
            let t4 = chars_of("Compressed: ");
            append_chars(&mut out, &t4);
            let d3 = dec_chars(self.compressed_files);
            append_chars(&mut out, &d3);
            let t5 = chars_of(" files\n");
            append_chars(&mut out, &t5);
        }
        let skipped = self.total_skipped();
        if skipped > 0 {
            let t6 = chars_of("Skipped: ");
            append_chars(&mut out, &t6);
            let d4 = dec_chars(skipped);
            append_chars(&mut out, &d4);
            let t7 = chars_of(" (");
            append_chars(&mut out, &t7);
            let sorted = sort_pairs(&self.skipped_by_reason);
            push_joined_reasons(&mut out, &sorted);
            let t8 = chars_of(")");
            append_chars(&mut out, &t8);
            let nl2 = chars_of("\n");
            append_chars(&mut out, &nl2);
        }
        match self.token_budget {
            Some(budget) => {
                let t9 = chars_of("Token budget: ");
                append_chars(&mut out, &t9);
                let f1 = format_tokens_chars(self.tokens_used);
                append_chars(&mut out, &f1);
                let t10 = chars_of(" / ");
                append_chars(&mut out, &t10);
                let f2 = format_tokens_chars(budget);
                append_chars(&mut out, &f2);
                let t11 = chars_of(" used\n");
                append_chars(&mut out, &t11);
                if self.excluded_by_budget.len() > 0 {
                    let t12 = chars_of("Excluded by budget: ");
                    append_chars(&mut out, &t12);
                    let d5 = dec_chars(self.excluded_by_budget.len());
                    append_chars(&mut out, &d5);
                    let t13 = chars_of(" files\n");
                    append_chars(&mut out, &t13);
                }
            },
            None => {},
        }
        if self.output_size > 0 {
            let t14 = chars_of("Output size: ");
            append_chars(&mut out, &t14);
            let f3 = format_bytes_chars(self.output_size);
            append_chars(&mut out, &f3);
            let t15 = chars_of(" (~");
            append_chars(&mut out, &t15);
            let f4 = format_tokens_chars(self.output_size / 4);
            append_chars(&mut out, &f4);
            let t16 = chars_of(" tokens)\n");
            append_chars(&mut out, &t16);
        }
        let t17 = chars_of("</summary>\n");
        append_chars(&mut out, &t17);
        string_from_chars(&out)
    }
}

/// The opening tag of one file record.
pub open spec fn spec_open_tag(path: Seq<char>, mode: Option<Seq<char>>) -> Seq<char> {
    match mode {
        Some(m) => "<file path=\""@ + spec_escape_xml(path) + "\" mode=\""@ + m + "\">\n"@,
        None => "<file path=\""@ + spec_escape_xml(path) + "\">\n"@,
    }
}

/// The bytes of one framed file record: the opening tag, the content, a
/// closing newline where the content does not end in one, and the closing
/// tag.
pub open spec fn spec_file_record(path: Seq<char>, content: Seq<char>, mode: Option<Seq<char>>) -> Seq<u8> {
    encode_utf8(spec_open_tag(path, mode)) + encode_utf8(content) + (if content.len() > 0
        && content.last() == '\n' {
        Seq::<u8>::empty()
    } else {
        encode_utf8("\n"@)
    }) + encode_utf8("</file>\n\n"@)
}

/// The bytes of one path line.
pub open spec fn spec_path_line(path: Seq<char>) -> Seq<u8> {
    encode_utf8(path) + encode_utf8("\n"@)
}

/// The bytes of the summary record.
pub open spec fn spec_summary_record(s: Statistics) -> Seq<u8> {
    encode_utf8(spec_summary(s)) + encode_utf8("\n"@)
}

/// Appends the bytes of `s` to `out`.
fn push_str_bytes(out: &mut Vec<u8>, s: &str) -> (n: usize)
    ensures
        final(out)@ == old(out)@ + s.spec_bytes(),
        n == s.spec_bytes().len(),
{
    let bv = s.as_bytes_vec();
    let mut k: usize = 0;
    while k < bv.len()
        invariant
            bv@ == s.spec_bytes(),
            0 <= k <= bv@.len(),
            out@ =~= old(out)@ + bv@.subrange(0, k as int),
        decreases bv@.len() - k,
    {
        out.push(bv[k]);
        k = k + 1;
    }
    proof {
        assert(out@ =~= old(out)@ + bv@);
    }
    bv.len()
}

/// Collects the framed output records as bytes, counting what has been
/// handed out.
pub struct OutputWriter {
    pending: Vec<u8>,
    bytes_written: usize,
}

impl OutputWriter {
    /// The bytes appended since the last take, in order.
    pub closed spec fn spec_pending(&self) -> Seq<u8> {
        self.pending@
    }

    /// The byte count of everything ever appended.
    pub closed spec fn spec_bytes_written(&self) -> nat {
        self.bytes_written as nat
    }

    /// A writer with nothing pending and nothing counted.
    pub fn new() -> (w: OutputWriter)
        ensures
            w.spec_pending() =~= Seq::<u8>::empty(),
            w.spec_bytes_written() == 0,
    {
        OutputWriter { pending: Vec::new(), bytes_written: 0 }
    }

    /// How many bytes have been appended in total.
    pub fn bytes_written(&self) -> (r: usize)
        ensures
            r == self.spec_bytes_written(),
    {
        self.bytes_written
    }

    /// Hands out the pending bytes and clears them; the running count is
    /// unchanged.
    pub fn take_pending(&mut self) -> (r: Vec<u8>)
        ensures
            r@ == old(self).spec_pending(),
            final(self).spec_pending() =~= Seq::<u8>::empty(),
            final(self).spec_bytes_written() == old(self).spec_bytes_written(),
    {
        let mut taken: Vec<u8> = Vec::new();
        core::mem::swap(&mut taken, &mut self.pending);
        taken
    }

    /// Appends one framed record for `path` with `content`.
    pub fn write_file_content(&mut self, path: &str, content: &str)
        requires
            old(self).spec_bytes_written() + spec_file_record(path@, content@, None).len()
                <= usize::MAX,
        ensures
            final(self).spec_pending() == old(self).spec_pending() + spec_file_record(
                path@,
                content@,
                None,
            ),
            final(self).spec_bytes_written() == old(self).spec_bytes_written() + spec_file_record(
                path@,
                content@,
                None,
            ).len(),
    {
        self.write_record(path, content, None);
    }

    /// Appends one framed record for `path` with `content` and a mode tag.
    pub fn write_file_content_with_mode(&mut self, path: &str, content: &str, mode: Option<&str>)
        requires
            old(self).spec_bytes_written() + spec_file_record(
                path@,
                content@,
                match mode {
                    Some(m) => Some(m@),
                    None => None,
                },
            ).len() <= usize::MAX,
        ensures
            final(self).spec_pending() == old(self).spec_pending() + spec_file_record(
                path@,
                content@,
                match mode {
                    Some(m) => Some(m@),
                    None => None,
                },
            ),
            final(self).spec_bytes_written() == old(self).spec_bytes_written() + spec_file_record(
                path@,
                content@,
                match mode {
                    Some(m) => Some(m@),
                    None => None,
                },
            ).len(),
    {
        self.write_record(path, content, mode);
    }

    fn write_record(&mut self, path: &str, content: &str, mode: Option<&str>)
        requires
            old(self).spec_bytes_written() + spec_file_record(
                path@,
                content@,
                match mode {
                    Some(m) => Some(m@),
                    None => None,
                },
            ).len() <= usize::MAX,
        ensures
            final(self).spec_pending() == old(self).spec_pending() + spec_file_record(
                path@,
                content@,
                match mode {
                    Some(m) => Some(m@),
                    None => None,
                },
            ),
            final(self).spec_bytes_written() == old(self).spec_bytes_written() + spec_file_record(
                path@,
                content@,
                match mode {
                    Some(m) => Some(m@),
                    None => None,
                },
            ).len(),
    {
        let ghost mode_view: Option<Seq<char>> = match mode {
            Some(m) => Some(m@),
            None => None,
        };
        let escaped = escape_xml(path);
        let mut tag = String::from_str("<file path=\"");
        tag.append(escaped.as_str());
        match mode {
            Some(m) => {
                tag.append("\" mode=\"");
                tag.append(m);
                tag.append("\">\n");
            },
            None => {
                tag.append("\">\n");
            },
        }
        proof {
            assert(tag@ == spec_open_tag(path@, mode_view));
        }
        let n1 = push_str_bytes(&mut self.pending, tag.as_str());
        let n2 = push_str_bytes(&mut self.pending, content);
        let ends_nl = {
            let cl = content.unicode_len();
            if cl > 0 {
                content.get_char(cl - 1) == '\n'
            } else {
                false
            }
        };
        let n3: usize = if !ends_nl {
            push_str_bytes(&mut self.pending, "\n")
        } else {
            0
        };
        let n4 = push_str_bytes(&mut self.pending, "</file>\n\n");
        self.bytes_written = self.bytes_written + n1 + n2 + n3 + n4;
    }

    /// Appends the summary record.
    pub fn write_summary(&mut self, stats: &Statistics)
        requires
            stats_wf(*stats),
            old(self).spec_bytes_written() + spec_summary_record(*stats).len() <= usize::MAX,
        ensures
            final(self).spec_pending() == old(self).spec_pending() + spec_summary_record(*stats),
            final(self).spec_bytes_written() == old(self).spec_bytes_written()
                + spec_summary_record(*stats).len(),
    {
        let summary = stats.format_summary();
        let n1 = push_str_bytes(&mut self.pending, summary.as_str());
        let n2 = push_str_bytes(&mut self.pending, "\n");
        self.bytes_written = self.bytes_written + n1 + n2;
    }

    /// Appends one bare path line.
    pub fn write_file_path(&mut self, path: &str)
        requires
            old(self).spec_bytes_written() + spec_path_line(path@).len() <= usize::MAX,
        ensures
            final(self).spec_pending() == old(self).spec_pending() + spec_path_line(path@),
            final(self).spec_bytes_written() == old(self).spec_bytes_written() + spec_path_line(
                path@,
            ).len(),
    {
        let n1 = push_str_bytes(&mut self.pending, path);
        let n2 = push_str_bytes(&mut self.pending, "\n");
        self.bytes_written = self.bytes_written + n1 + n2;
    }
}


} // verus!
