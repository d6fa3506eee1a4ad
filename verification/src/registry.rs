//! Scanning the configuration tool's output for the registry value.
//!
//! The output is line-oriented; the first line that begins with the fixed
//! key prefix is selected, the text after the `=` that closes the prefix is
//! taken as the raw value, and quotes at either end are stripped.

use vstd::prelude::*;

verus! {

/// The fixed prefix a configuration line must begin with.
pub open spec fn key_prefix() -> Seq<char> {
    "export npm_config_registry="@
}

/// Does this line carry the registry key?
pub open spec fn is_key_line(line: Seq<char>) -> bool {
    key_prefix().len() <= line.len() && line.subrange(0, key_prefix().len() as int)
        == key_prefix()
}

/// Quote characters stripped from the ends of a value.
pub open spec fn is_quote(c: char) -> bool {
    c == '\'' || c == '"'
}

/// Remove every single or double quote at either end of the value.
pub open spec fn strip_quotes(s: Seq<char>) -> Seq<char>
    decreases s.len(),
{
    if s.len() > 0 && is_quote(s[0]) {
        strip_quotes(s.drop_first())
    } else if s.len() > 0 && is_quote(s[s.len() - 1]) {
        strip_quotes(s.drop_last())
    } else {
        s
    }
}

/// The raw value of a key line: the text after the `=` that closes the
/// prefix (the first `=` of the line), with end quotes stripped.
pub open spec fn raw_value(line: Seq<char>) -> Seq<char> {
    strip_quotes(line.subrange(key_prefix().len() as int, line.len() as int))
}

/// Index of the first newline at or after `i`, or the length when none is
/// left.
pub open spec fn line_end(s: Seq<char>, i: int) -> int
    decreases s.len() - i,
    when 0 <= i <= s.len()
{
    if i >= s.len() {
        s.len() as int
    } else if s[i] == '\n' {
        i
    } else {
        line_end(s, i + 1)
    }
}

/// A line loses one trailing carriage return, so that output with CRLF
/// line endings scans the same as output with bare newlines.
pub open spec fn strip_cr(l: Seq<char>) -> Seq<char> {
    if l.len() > 0 && l[l.len() - 1] == '\r' {
        l.drop_last()
    } else {
        l
    }
}

/// The line that starts at position `i`.
pub open spec fn line_at(s: Seq<char>, i: int) -> Seq<char> {
    strip_cr(s.subrange(i, line_end(s, i)))
}

proof fn lemma_line_end_bounds(s: Seq<char>, i: int)
    requires
        0 <= i <= s.len(),
    ensures
        i <= line_end(s, i) <= s.len(),
        line_end(s, i) < s.len() ==> s[line_end(s, i)] == '\n',
    decreases s.len() - i,
{
    if i < s.len() && s[i] != '\n' {
        lemma_line_end_bounds(s, i + 1);
    }
}

/// A scan that saw no newline in `[i, j)` and stopped at the end or on a
/// newline found exactly the end of the line.
proof fn lemma_line_end_step(s: Seq<char>, i: int, j: int)
    requires
        0 <= i <= j <= s.len(),
        forall|k: int| i <= k < j ==> s[k] != '\n',
        j < s.len() ==> s[j] == '\n',
    ensures
        line_end(s, i) == j,
    decreases j - i,
{
    if i < j {
        lemma_line_end_step(s, i + 1, j);
    }
}

/// Scan the lines of `s` from position `i` on: the first key line yields
/// its value, and later lines are never consulted.
pub open spec fn extract_from(s: Seq<char>, i: int) -> Option<Seq<char>>
    decreases s.len() - i,
    when 0 <= i <= s.len()
    via extract_from_decreases
{
    if is_key_line(line_at(s, i)) {
        Some(raw_value(line_at(s, i)))
    } else if line_end(s, i) >= s.len() {
        None
    } else {
        extract_from(s, line_end(s, i) + 1)
    }
}

#[via_fn]
proof fn extract_from_decreases(s: Seq<char>, i: int) {
    lemma_line_end_bounds(s, i);
}

/// The registry value carried by the output, if any line carries one.
pub open spec fn spec_extract_registry(s: Seq<char>) -> Option<Seq<char>> {
    extract_from(s, 0)
}

/// The view of an optional owned string.
pub open spec fn string_opt_view(o: Option<String>) -> Option<Seq<char>> {
    match o {
        Some(s) => Some(s@),
        None => None,
    }
}

fn is_quote_char(c: char) -> (r: bool)
    ensures
        r == is_quote(c),
{
    c == '\'' || c == '"'
}

/// Strip single and double quotes from both ends of a value.
fn strip_quotes_str(s: &str) -> (r: &str)
    ensures
        r@ == strip_quotes(s@),
{
    let n = s.unicode_len();
    let mut lo: usize = 0;
    let mut hi: usize = n;
    proof {
        assert(s@.subrange(0, n as int) =~= s@);
    }
    while lo < hi && is_quote_char(s.get_char(lo))
        invariant
            lo <= hi <= n,
            n == s@.len(),
            strip_quotes(s@) == strip_quotes(s@.subrange(lo as int, hi as int)),
        decreases hi - lo,
    {
        proof {
            let sub = s@.subrange(lo as int, hi as int);
            assert(sub[0] == s@[lo as int]);
            assert(strip_quotes(sub) == strip_quotes(sub.drop_first()));
            assert(sub.drop_first() =~= s@.subrange(lo as int + 1, hi as int));
        }
        lo = lo + 1;
    }
    while lo < hi && is_quote_char(s.get_char(hi - 1))
        invariant
            lo <= hi <= n,
            n == s@.len(),
            strip_quotes(s@) == strip_quotes(s@.subrange(lo as int, hi as int)),
            lo < hi ==> !is_quote(s@[lo as int]),
        decreases hi,
    {
        proof {
            let sub = s@.subrange(lo as int, hi as int);
            assert(sub[0] == s@[lo as int]);
            assert(sub[sub.len() - 1] == s@[hi as int - 1]);
            assert(strip_quotes(sub) == strip_quotes(sub.drop_last()));
            assert(sub.drop_last() =~= s@.subrange(lo as int, hi as int - 1));
        }
        hi = hi - 1;
    }
    proof {
        let sub = s@.subrange(lo as int, hi as int);
        if lo < hi {
            assert(sub[0] == s@[lo as int]);
            assert(sub[sub.len() - 1] == s@[hi as int - 1]);
        }
        assert(strip_quotes(sub) == sub);
    }
    s.substring_char(lo, hi)
}

/// The length of the key prefix, in characters.
fn key_prefix_len() -> (r: usize)
    ensures
        r == key_prefix().len(),
{
    let p: &str = "export npm_config_registry=";
    p.unicode_len()
}

/// Does this line begin with the registry key prefix?
fn starts_with_key(line: &str) -> (r: bool)
    ensures
        r == is_key_line(line@),
{
    let p: &str = "export npm_config_registry=";
    let plen = p.unicode_len();
    let n = line.unicode_len();
    if n < plen {
        return false;
    }
    let mut k: usize = 0;
    while k < plen
        invariant
            k <= plen,
            plen == key_prefix().len(),
            n == line@.len(),
            plen <= n,
            p@ == key_prefix(),
            forall|t: int| 0 <= t < k ==> line@[t] == key_prefix()[t],
        decreases plen - k,
    {
        if line.get_char(k) != p.get_char(k) {
            proof {
                assert(line@.subrange(0, plen as int)[k as int] == line@[k as int]);
            }
            return false;
        }
        k = k + 1;
    }
    proof {
        assert(line@.subrange(0, plen as int) =~= key_prefix());
    }
    true
}

/// Scan the tool's output for the registry value: the first line that
/// begins with the key prefix is honored, its value taken after the `=`
/// and unquoted; later lines are ignored, and with no such line there is
/// no value.
pub fn extract_registry(out: &str) -> (r: Option<String>)
    ensures
        string_opt_view(r) == spec_extract_registry(out@),
{
    let n = out.unicode_len();
    let mut i: usize = 0;
    loop
        invariant
            i <= n,
            n == out@.len(),
            extract_from(out@, i as int) == extract_from(out@, 0),
        decreases n - i,
    {
        let mut j: usize = i;
        while j < n && out.get_char(j) != '\n'
            invariant
                i <= j <= n,
                n == out@.len(),
                forall|k: int| i <= k < j ==> out@[k] != '\n',
            decreases n - j,
        {
            j = j + 1;
        }
        proof {
            lemma_line_end_step(out@, i as int, j as int);
        }
        let mut e: usize = j;
        if e > i && out.get_char(e - 1) == '\r' {
            e = e - 1;
        }
        let line = out.substring_char(i, e);
        proof {
            let l0 = out@.subrange(i as int, j as int);
            if j > i && out@[j as int - 1] == '\r' {
                assert(l0[l0.len() - 1] == out@[j as int - 1]);
                assert(l0.drop_last() =~= out@.subrange(i as int, j as int - 1));
            } else if j > i {
                assert(l0[l0.len() - 1] == out@[j as int - 1]);
            }
            assert(line@ == line_at(out@, i as int));
        }
        if starts_with_key(line) {
            let plen = key_prefix_len();
            let llen = line.unicode_len();
            let v = line.substring_char(plen, llen);
            let c = strip_quotes_str(v);
            proof {
                assert(extract_from(out@, i as int) == Some(raw_value(line@)));
            }
            return Some(String::from_str(c));
        } else {
            if j < n {
                proof {
                    assert(extract_from(out@, i as int) == extract_from(
                        out@,
                        j as int + 1,
                    ));
                }
                i = j + 1;
            } else {
                proof {
                    assert(extract_from(out@, i as int) is None);
                }
                return None;
            }
        }
    }
}

/// Is `i` the first position of a line of `s`?
pub open spec fn is_line_start(s: Seq<char>, i: int) -> bool {
    i == 0 || (0 < i <= s.len() && s[i - 1] == '\n')
}

proof fn lemma_no_key_line_from(s: Seq<char>, i: int)
    requires
        0 <= i <= s.len(),
        is_line_start(s, i),
        forall|k: int|
            0 <= k <= s.len() && is_line_start(s, k) ==> !is_key_line(#[trigger] line_at(s, k)),
    ensures
        extract_from(s, i) is None,
    decreases s.len() - i,
{
    lemma_line_end_bounds(s, i);
    assert(!is_key_line(line_at(s, i)));
    let j = line_end(s, i);
    if j < s.len() {
        assert(is_line_start(s, j + 1));
        lemma_no_key_line_from(s, j + 1);
    }
}

/// When no line of the output begins with the key prefix, the scan yields
/// no value.
pub proof fn lemma_no_key_line_no_registry(s: Seq<char>)
    requires
        forall|k: int|
            0 <= k <= s.len() && is_line_start(s, k) ==> !is_key_line(#[trigger] line_at(s, k)),
    ensures
        spec_extract_registry(s) is None,
{
    lemma_no_key_line_from(s, 0);
}

/// A value with no quote at either end passes the unquoting step
/// unchanged.
pub proof fn lemma_unquoted_value_unchanged(v: Seq<char>)
    requires
        v.len() > 0 ==> !is_quote(v[0]) && !is_quote(v[v.len() - 1]),
    ensures
        strip_quotes(v) == v,
{
}

/// A value wrapped in single quotes loses exactly those quotes.
pub proof fn lemma_single_quoted_value_stripped(v: Seq<char>)
    requires
        v.len() > 0 ==> !is_quote(v[0]) && !is_quote(v[v.len() - 1]),
    ensures
        strip_quotes(seq!['\''] + v + seq!['\'']) == v,
{
    let q: Seq<char> = seq!['\''];
    let w = q + v + q;
    assert(w[0] == '\'');
    assert(strip_quotes(w) == strip_quotes(w.drop_first()));
    assert(w.drop_first() =~= v + q);
    if v.len() == 0 {
        assert(v + q =~= q);
        assert(strip_quotes(q) == strip_quotes(q.drop_first()));
        assert(q.drop_first() =~= Seq::<char>::empty());
        assert(strip_quotes(Seq::<char>::empty()) == Seq::<char>::empty());
        assert(v =~= Seq::<char>::empty());
    } else {
        let u = v + q;
        assert(u[0] == v[0]);
        assert(u[u.len() - 1] == '\'');
        assert(strip_quotes(u) == strip_quotes(u.drop_last()));
        assert(u.drop_last() =~= v);
        lemma_unquoted_value_unchanged(v);
    }
}

} // verus!
