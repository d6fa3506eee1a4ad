//! Turning a raw registry value into a displayable host.
//!
//! The value is trimmed of surrounding whitespace, parsed as an absolute
//! URL, and its host kept when the URL carries a non-empty one. A value
//! that is no URL, or a URL without a host, yields nothing rather than a
//! failure.

use crate::registry::string_opt_view;
use vstd::prelude::*;

verus! {

/// Whitespace characters trimmed from the ends of a value.
pub open spec fn is_space(c: char) -> bool {
    c == ' ' || c == '\t' || c == '\r' || c == '\n'
}

/// Remove every whitespace character at either end of the value.
pub open spec fn trim_spaces(s: Seq<char>) -> Seq<char>
    decreases s.len(),
{
    if s.len() > 0 && is_space(s[0]) {
        trim_spaces(s.drop_first())
    } else if s.len() > 0 && is_space(s[s.len() - 1]) {
        trim_spaces(s.drop_last())
    } else {
        s
    }
}

fn is_space_char(c: char) -> (r: bool)
    ensures
        r == is_space(c),
{
    c == ' ' || c == '\t' || c == '\r' || c == '\n'
}

/// Trim whitespace from both ends of a value.
pub fn trim_spaces_str(s: &str) -> (r: &str)
    ensures
        r@ == trim_spaces(s@),
{
    let n = s.unicode_len();
    let mut lo: usize = 0;
    let mut hi: usize = n;
    proof {
        assert(s@.subrange(0, n as int) =~= s@);
    }
    while lo < hi && is_space_char(s.get_char(lo))
        invariant
            lo <= hi <= n,
            n == s@.len(),
            trim_spaces(s@) == trim_spaces(s@.subrange(lo as int, hi as int)),
        decreases hi - lo,
    {
        proof {
            let sub = s@.subrange(lo as int, hi as int);
            assert(sub[0] == s@[lo as int]);
            assert(trim_spaces(sub) == trim_spaces(sub.drop_first()));
            assert(sub.drop_first() =~= s@.subrange(lo as int + 1, hi as int));
        }
        lo = lo + 1;
    }
    while lo < hi && is_space_char(s.get_char(hi - 1))
        invariant
            lo <= hi <= n,
            n == s@.len(),
            trim_spaces(s@) == trim_spaces(s@.subrange(lo as int, hi as int)),
            lo < hi ==> !is_space(s@[lo as int]),
        decreases hi,
    {
        proof {
            let sub = s@.subrange(lo as int, hi as int);
            assert(sub[0] == s@[lo as int]);
            assert(sub[sub.len() - 1] == s@[hi as int - 1]);
            assert(trim_spaces(sub) == trim_spaces(sub.drop_last()));
            assert(sub.drop_last() =~= s@.subrange(lo as int, hi as int - 1));
        }
        hi = hi - 1;
    }
    proof {
        let sub = s@.subrange(lo as int, hi as int);
        if lo < hi {
            assert(sub[0] == s@[lo as int]);
            assert(sub[sub.len() - 1] == s@[hi as int - 1]);
        }
        assert(trim_spaces(sub) == sub);
    }
    s.substring_char(lo, hi)
}

/// The host of the absolute URL written in `s`, when `s` parses as one
/// and that URL carries a host: the result of `url::Url::parse` followed
/// by `url::Url::host_str`, a function of the text alone.
pub uninterp spec fn url_host(s: Seq<char>) -> Option<Seq<char>>;

/// Relies on `url::Url::parse` and `url::Url::host_str`: parsing an
/// absolute URL and reading its host depend on the input text alone; a
/// parse error or a URL without a host yields `None`, never a failure.
#[verifier::external_body]
fn parse_url_host(s: &str) -> (r: Option<String>)
    ensures
        (r is Some) == (url_host(s@) is Some),
        r matches Some(h) ==> url_host(s@) == Some(h@),
{
    match url::Url::parse(s) {
        Ok(u) => match u.host_str() {
            Some(h) => Some(h.to_string()),
            None => None,
        },
        Err(_) => None,
    }
}

/// The host the module displays for a raw registry value: the trimmed
/// value's URL host, kept only when it is non-empty.
pub open spec fn spec_extract_host(raw: Seq<char>) -> Option<Seq<char>> {
    match url_host(trim_spaces(raw)) {
        Some(h) => if h.len() > 0 {
            Some(h)
        } else {
            None
        },
        None => None,
    }
}

/// Parse the raw registry value and yield the URL's host: whitespace is
/// trimmed first, an unparsable value or a hostless URL yields `None`,
/// and a host present is never empty.
pub fn extract_host(raw: &str) -> (r: Option<String>)
    ensures
        string_opt_view(r) == spec_extract_host(raw@),
        r matches Some(h) ==> h@.len() > 0,
{
    let t = trim_spaces_str(raw);
    match parse_url_host(t) {
        Some(h) => {
            if h.as_str().is_empty() {
                None
            } else {
                Some(h)
            }
        },
        None => None,
    }
}

} // verus!
