//! Trusted declarations for the dependency-specifier crate.
//!
//! Requirement strings and environment markers follow PEP 508; parsing and
//! marker evaluation stay in `pep508_rs`, behind the contracts here.
use vstd::prelude::*;

use crate::strutil::{find_char, spec_find};

verus! {

/// A dependency specifier parsed by `pep508_rs`, carried opaquely.
///
/// `pep508_rs::Requirement` is generic over its URL type with an outside
/// trait as the bound, which cannot be declared here; the parsed value is
/// held behind this struct instead.
#[verifier::external_body]
pub struct ParsedRequirement {
    inner: pep508_rs::Requirement,
}

impl ParsedRequirement {
    /// Relies on `pep508_rs::Requirement`'s `Display` impl: hands out the
    /// requirement's canonical rendered text.
    #[verifier::external_body]
    pub fn to_display_string(&self) -> String {
        self.inner.to_string()
    }
}

#[verifier::external_type_specification]
#[verifier::external_body]
pub struct ExMarkerTree(pep508_rs::MarkerTree);

#[verifier::external_type_specification]
#[verifier::external_body]
pub struct ExMarkerEnvironment(pep508_rs::MarkerEnvironment);


/// A whitespace character as the dependency-specifier parser skips them:
/// the Unicode white-space set.
pub open spec fn spec_parser_ws(c: char) -> bool {
    c == '\u{0009}' || c == '\u{000A}' || c == '\u{000B}' || c == '\u{000C}' || c == '\u{000D}' || c == '\u{0020}' || c == '\u{0085}' || c == '\u{00A0}' || c == '\u{1680}' || c == '\u{2000}' || c == '\u{2001}' || c == '\u{2002}' || c == '\u{2003}' || c == '\u{2004}' || c == '\u{2005}' || c == '\u{2006}' || c == '\u{2007}' || c == '\u{2008}' || c == '\u{2009}' || c == '\u{200A}' || c == '\u{2028}' || c == '\u{2029}' || c == '\u{202F}' || c == '\u{205F}' || c == '\u{3000}'
}

fn is_parser_ws(c: char) -> (b: bool)
    ensures
        b == spec_parser_ws(c),
{
    c == '\u{0009}' || c == '\u{000A}' || c == '\u{000B}' || c == '\u{000C}' || c == '\u{000D}' || c == '\u{0020}' || c == '\u{0085}' || c == '\u{00A0}' || c == '\u{1680}' || c == '\u{2000}' || c == '\u{2001}' || c == '\u{2002}' || c == '\u{2003}' || c == '\u{2004}' || c == '\u{2005}' || c == '\u{2006}' || c == '\u{2007}' || c == '\u{2008}' || c == '\u{2009}' || c == '\u{200A}' || c == '\u{2028}' || c == '\u{2029}' || c == '\u{202F}' || c == '\u{205F}' || c == '\u{3000}'
}

/// A character of a package or extra name.
pub open spec fn spec_ident_char(c: char) -> bool {
    ('a' <= c && c <= 'z') || ('A' <= c && c <= 'Z') || ('0' <= c && c <= '9') || c == '-' || c
        == '_' || c == '.'
}

fn is_ident_char(c: char) -> (b: bool)
    ensures
        b == spec_ident_char(c),
{
    ('a' <= c && c <= 'z') || ('A' <= c && c <= 'Z') || ('0' <= c && c <= '9') || c == '-' || c
        == '_' || c == '.'
}

/// A separator character inside a name: the characters a name may hold
/// but not end with.
pub open spec fn spec_ident_sep(c: char) -> bool {
    c == '-' || c == '_' || c == '.'
}

/// First index at or after `from` whose character is no parser
/// whitespace; `s.len()` when all of the rest is.
pub open spec fn spec_skip_ws(s: Seq<char>, from: int) -> int
    recommends
        0 <= from <= s.len(),
    decreases s.len() - from when 0 <= from <= s.len()
{
    if from >= s.len() {
        s.len() as int
    } else if spec_parser_ws(s[from]) {
        spec_skip_ws(s, from + 1)
    } else {
        from
    }
}

/// First index at or after `from` whose character is no name character;
/// `s.len()` when the run reaches the end.
pub open spec fn spec_run_end(s: Seq<char>, from: int) -> int
    recommends
        0 <= from <= s.len(),
    decreases s.len() - from when 0 <= from <= s.len()
{
    if from >= s.len() {
        s.len() as int
    } else if spec_ident_char(s[from]) {
        spec_run_end(s, from + 1)
    } else {
        from
    }
}

proof fn lemma_run_end_range(s: Seq<char>, from: int)
    requires
        0 <= from <= s.len(),
    ensures
        from <= spec_run_end(s, from) <= s.len(),
        from < s.len() && spec_ident_char(s[from]) ==> spec_run_end(s, from) > from,
    decreases s.len() - from,
{
    if from < s.len() && spec_ident_char(s[from]) {
        lemma_run_end_range(s, from + 1);
    }
}

/// No name-character run inside `[i, b)` ends with a separator. This is
/// what the parser's extras section demands: an extra token ending in
/// `-`, `_` or `.` is the input its `.expect` dies on.
pub open spec fn spec_extras_clean(s: Seq<char>, i: int, b: int) -> bool
    recommends
        0 <= i,
        b <= s.len(),
    decreases b - i when 0 <= i && b <= s.len()
    via spec_extras_clean_decreases
{
    if i >= b {
        true
    } else if !spec_ident_char(s[i]) {
        spec_extras_clean(s, i + 1, b)
    } else {
        let e = if spec_run_end(s, i) > b {
            b
        } else {
            spec_run_end(s, i)
        };
        !spec_ident_sep(s[e - 1]) && spec_extras_clean(s, e, b)
    }
}

#[via_fn]
proof fn spec_extras_clean_decreases(s: Seq<char>, i: int, b: int) {
    if 0 <= i && i < b && b <= s.len() && spec_ident_char(s[i]) {
        lemma_run_end_range(s, i);
    }
}

/// The parser's name and extra tokens end cleanly: the package-name token
/// (the first name-character run, after leading whitespace) does not end
/// with a separator when more input follows, and when an extras list
/// opens right after it, no token inside the brackets ends with a
/// separator.
///
/// Every input this predicate accepts stays clear of the
/// dependency-specifier parser's internal `.expect` calls, which die on
/// such tokens instead of returning an error; and no well-formed
/// requirement is refused, since names and extras must end
/// alphanumerically.
pub open spec fn spec_name_tokens_clean(s: Seq<char>) -> bool {
    let p = spec_skip_ws(s, 0);
    if p >= s.len() {
        true
    } else {
        let q = spec_run_end(s, p);
        if q > p && q < s.len() && spec_ident_sep(s[q - 1]) {
            false
        } else {
            let r = spec_skip_ws(s, q);
            if r < s.len() && s[r] == '[' {
                spec_extras_clean(s, r + 1, spec_find(s, ']', r + 1))
            } else {
                true
            }
        }
    }
}

fn skip_ws(s: &str, from: usize) -> (r: usize)
    requires
        from <= s@.len(),
    ensures
        r == spec_skip_ws(s@, from as int),
        from <= r <= s@.len(),
{
    let n = s.unicode_len();
    let mut i = from;
    while i < n
        invariant
            from <= i <= n,
            n == s@.len(),
            spec_skip_ws(s@, from as int) == spec_skip_ws(s@, i as int),
        decreases n - i,
    {
        if !is_parser_ws(s.get_char(i)) {
            return i;
        }
        i = i + 1;
    }
    i
}

fn run_end(s: &str, from: usize) -> (r: usize)
    requires
        from <= s@.len(),
    ensures
        r == spec_run_end(s@, from as int),
        from <= r <= s@.len(),
        from < s@.len() && spec_ident_char(s@[from as int]) ==> r > from,
{
    proof {
        lemma_run_end_range(s@, from as int);
    }
    let n = s.unicode_len();
    let mut i = from;
    while i < n
        invariant
            from <= i <= n,
            n == s@.len(),
            spec_run_end(s@, from as int) == spec_run_end(s@, i as int),
        decreases n - i,
    {
        if !is_ident_char(s.get_char(i)) {
            return i;
        }
        i = i + 1;
    }
    i
}

/// Decides [`spec_name_tokens_clean`] for one requirement string.
#[verifier::loop_isolation(false)]
pub fn name_tokens_clean(s: &str) -> (b: bool)
    ensures
        b == spec_name_tokens_clean(s@),
{
    let n = s.unicode_len();
    let p = skip_ws(s, 0);
    if p >= n {
        return true;
    }
    let q = run_end(s, p);
    if q > p && q < n {
        let c = s.get_char(q - 1);
        if c == '-' || c == '_' || c == '.' {
            return false;
        }
    }
    let r = skip_ws(s, q);
    if r < n && s.get_char(r) == '[' {
        let b_end = find_char(s, ']', r + 1);
        let mut i = r + 1;
        while i < b_end
            invariant
                r + 1 <= i,
                spec_extras_clean(s@, r + 1, b_end as int) == spec_extras_clean(
                    s@,
                    i as int,
                    b_end as int,
                ),
            decreases b_end - i,
        {
            if !is_ident_char(s.get_char(i)) {
                i = i + 1;
            } else {
                let e = run_end(s, i);
                let stop = if e > b_end {
                    b_end
                } else {
                    e
                };
                let c = s.get_char(stop - 1);
                if c == '-' || c == '_' || c == '.' {
                    return false;
                }
                i = stop;
            }
        }
        return true;
    }
    true
}

/// `s` holds no `$`, so the parser's variable expansion cannot touch it.
pub open spec fn dollar_free(s: Seq<char>) -> bool {
    forall|i: int| 0 <= i < s.len() ==> (#[trigger] s[i]) != '$'
}

/// Whether a `$`-free string parses as a PEP 508 dependency specifier.
/// `pep508_rs` decides; without a `$`, the verdict depends on the
/// characters alone.
pub uninterp spec fn requirement_parses(s: Seq<char>) -> bool;

/// Relies on `pep508_rs::Requirement`'s `FromStr` impl. On a direct-URL
/// specifier the parser first expands `${NAME}` patterns from the process
/// environment, so the verdict on a string holding a `$` can change
/// between runs and nothing is claimed of it; on a `$`-free string the
/// expansion is the identity and whether the string parses is a function
/// of the string alone. A parse error is carried out as its rendered
/// text.
/// The `requires` keeps clear of the parser's two reachable panics (its
/// `.expect` calls validating name and extra tokens); every admitted
/// input returns.
#[verifier::external_body]
pub(crate) fn parse_requirement(s: &str) -> (r: Result<ParsedRequirement, String>)
    requires
        spec_name_tokens_clean(s@),
    ensures
        dollar_free(s@) ==> (r is Ok <==> requirement_parses(s@)),
{
    match <pep508_rs::Requirement as core::str::FromStr>::from_str(s) {
        Ok(req) => Ok(ParsedRequirement { inner: req }),
        Err(e) => Err(e.to_string()),
    }
}

/// Relies on `pep508_rs::MarkerTree::evaluate_optional_environment`: with
/// an environment the marker is evaluated against it; without one, every
/// environment reference counts as true and only extra names decide — and
/// none are supplied here. Nothing is assumed of the verdict.
#[verifier::external_body]
pub(crate) fn marker_applies(
    marker: &pep508_rs::MarkerTree,
    env: Option<&pep508_rs::MarkerEnvironment>,
) -> bool {
    marker.evaluate_optional_environment(env, &[])
}

} // verus!
