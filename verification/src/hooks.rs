//! Hook-level logic on top of the daemon: hook names, hook arguments, and
//! the interpretation of each hook's `OK` payload.
//!
//! The payload of `get_requires_for_build_*` is a bracketed, single-quoted,
//! comma-space-separated list of requirement strings; each element is parsed
//! as a dependency specifier. The payload of `build_*` is the archive's
//! filename, and that of `prepare_metadata_for_build_*` the metadata
//! directory's name.
use vstd::prelude::*;

use crate::command::BuildKind;
use crate::pep508::{
    dollar_free, name_tokens_clean, parse_requirement, requirement_parses, spec_name_tokens_clean,
    ParsedRequirement,
};
use crate::protocol::{DaemonError, ErrV};
use crate::strutil::substr;

verus! {

/// The hook name `get_requires_for_build_<kind>`.
pub fn requires_hook_name(kind: BuildKind) -> (r: String)
    ensures
        r@ == "get_requires_for_build_"@ + kind.spec_suffix(),
{
    String::from_str("get_requires_for_build_").concat(kind.suffix())
}

/// The arguments of `get_requires_for_build_*`: one empty field.
pub fn requires_hook_args() -> (r: Vec<String>)
    ensures
        r.deep_view() =~= seq![Seq::<char>::empty()],
{
    let mut args: Vec<String> = Vec::new();
    args.push(String::new());
    args
}

/// The hook name `prepare_metadata_for_build_<kind>`.
pub fn metadata_hook_name(kind: BuildKind) -> (r: String)
    ensures
        r@ == "prepare_metadata_for_build_"@ + kind.spec_suffix(),
{
    String::from_str("prepare_metadata_for_build_").concat(kind.suffix())
}

/// The arguments of `prepare_metadata_for_build_*`: the target directory
/// and one empty field.
pub fn metadata_hook_args(metadata_directory: &str) -> (r: Vec<String>)
    ensures
        r.deep_view() =~= seq![metadata_directory@, Seq::<char>::empty()],
{
    let mut args: Vec<String> = Vec::new();
    args.push(metadata_directory.to_owned());
    args.push(String::new());
    args
}

/// The hook name `build_<kind>`.
pub fn build_hook_name(kind: BuildKind) -> (r: String)
    ensures
        r@ == "build_"@ + kind.spec_suffix(),
{
    String::from_str("build_").concat(kind.suffix())
}

/// The arguments of `build_*`: the output directory, an empty field, and
/// the pre-computed metadata directory or an empty field in its place.
pub fn build_hook_args(wheel_directory: &str, metadata_directory: Option<&str>) -> (r: Vec<
    String,
>)
    ensures
        r.deep_view() =~= seq![
            wheel_directory@,
            Seq::<char>::empty(),
            match metadata_directory {
                Some(m) => m@,
                None => Seq::<char>::empty(),
            },
        ],
{
    let mut args: Vec<String> = Vec::new();
    args.push(wheel_directory.to_owned());
    args.push(String::new());
    match metadata_directory {
        Some(m) => args.push(m.to_owned()),
        None => args.push(String::new()),
    }
    args
}

/// The `build_*` payload is the produced archive's filename inside the
/// output directory, as the child sent it.
pub fn interpret_build_result(payload: &str) -> (r: String)
    ensures
        r@ == payload@,
{
    payload.to_owned()
}

/// The `prepare_metadata_for_build_*` payload names the created metadata
/// directory, to be resolved against the directory the caller supplied; an
/// empty payload means the backend declined to prepare metadata.
pub fn interpret_metadata_result(payload: &str) -> (r: Option<String>)
    ensures
        payload@.len() == 0 ==> r is None,
        payload@.len() > 0 ==> (r matches Some(p) && p@ == payload@),
{
    if payload.unicode_len() == 0 {
        None
    } else {
        Some(payload.to_owned())
    }
}

/// Index of the first `", "` separator in `s` at or after `from`; `s.len()`
/// when there is none.
pub open spec fn spec_find_sep(s: Seq<char>, from: int) -> int
    recommends
        0 <= from <= s.len(),
    decreases s.len() - from when 0 <= from <= s.len()
{
    if from + 1 >= s.len() {
        s.len() as int
    } else if s[from] == ',' && s[from + 1] == ' ' {
        from
    } else {
        spec_find_sep(s, from + 1)
    }
}

pub proof fn lemma_spec_find_sep_range(s: Seq<char>, from: int)
    requires
        0 <= from <= s.len(),
    ensures
        from <= spec_find_sep(s, from) <= s.len(),
        spec_find_sep(s, from) < s.len() ==> spec_find_sep(s, from) + 1 < s.len() && s[spec_find_sep(
            s,
            from,
        )] == ',' && s[spec_find_sep(s, from) + 1] == ' ',
    decreases s.len() - from,
{
    if from + 1 < s.len() && !(s[from] == ',' && s[from + 1] == ' ') {
        lemma_spec_find_sep_range(s, from + 1);
    }
}

fn find_sep(s: &str, from: usize) -> (r: usize)
    requires
        from <= s@.len(),
    ensures
        r == spec_find_sep(s@, from as int),
        from <= r <= s@.len(),
{
    let n = s.unicode_len();
    let mut i = from;
    while i < n
        invariant
            from <= i,
            i <= n,
            n == s@.len(),
            spec_find_sep(s@, from as int) == spec_find_sep(s@, i as int),
        decreases n - i,
    {
        if i + 1 >= n {
            return n;
        }
        if s.get_char(i) == ',' && s.get_char(i + 1) == ' ' {
            return i;
        }
        i = i + 1;
    }
    n
}

/// The pieces of `s` split on `", "`, scanning left to right; splitting the
/// empty string yields one empty piece.
pub open spec fn spec_split_list(s: Seq<char>) -> Seq<Seq<char>>
    decreases s.len(),
    via spec_split_list_decreases
{
    let k = spec_find_sep(s, 0);
    if k >= s.len() {
        seq![s]
    } else {
        seq![s.take(k)] + spec_split_list(s.skip(k + 2))
    }
}

#[via_fn]
proof fn spec_split_list_decreases(s: Seq<char>) {
    lemma_spec_find_sep_range(s, 0);
}

/// The element inside one single-quoted piece, if the quotes are there.
pub open spec fn spec_unquote(e: Seq<char>) -> Option<Seq<char>> {
    if e.len() >= 2 && e[0] == '\'' && e[e.len() - 1] == '\'' {
        Some(e.subrange(1, e.len() - 1))
    } else {
        None
    }
}

/// Unquoted pieces with unquoted empties dropped; pieces without their
/// quotes are dropped altogether.
pub open spec fn spec_clean(pieces: Seq<Seq<char>>) -> Seq<Seq<char>>
    decreases pieces.len(),
{
    if pieces.len() == 0 {
        Seq::empty()
    } else {
        let rest = spec_clean(pieces.skip(1));
        match spec_unquote(pieces[0]) {
            Some(q) => if q.len() > 0 {
                seq![q] + rest
            } else {
                rest
            },
            None => rest,
        }
    }
}

/// The requirement strings of a `get_requires_for_build_*` payload: the
/// outer brackets stripped, the inside split on `", "`, each piece's single
/// quotes stripped, and empties dropped. `None` when the brackets are
/// missing.
pub open spec fn spec_requires_elements(payload: Seq<char>) -> Option<Seq<Seq<char>>> {
    if payload.len() >= 2 && payload[0] == '[' && payload[payload.len() - 1] == ']' {
        Some(spec_clean(spec_split_list(payload.subrange(1, payload.len() - 1))))
    } else {
        None
    }
}

/// Splits a `get_requires_for_build_*` payload into its requirement
/// strings. A payload without the outer brackets is rejected as an invalid
/// hook result.
pub fn parse_requires_elements(payload: &str) -> (r: Result<Vec<String>, DaemonError>)
    ensures
        match r {
            Ok(elems) => spec_requires_elements(payload@) == Some(elems.deep_view()),
            Err(e) => spec_requires_elements(payload@) is None && e@ == ErrV::InvalidResult(
                payload@,
                "expected a bracketed list"@,
            ),
        },
{
    let n = payload.unicode_len();
    if n < 2 || payload.get_char(0) != '[' || payload.get_char(n - 1) != ']' {
        return Err(
            DaemonError::InvalidResult(
                payload.to_owned(),
                String::from_str("expected a bracketed list"),
            ),
        );
    }
    let inner = substr(payload, 1, n - 1);
    let ghost inner_v = payload@.subrange(1, payload@.len() - 1);
    let in_len = inner.as_str().unicode_len();
    let mut out: Vec<String> = Vec::new();
    let mut start: usize = 0;
    let mut piece_end = find_sep(inner.as_str(), 0);
    proof {
        assert(inner_v.skip(0) =~= inner_v);
        assert(out.deep_view() + spec_clean(spec_split_list(inner_v)) =~= spec_clean(
            spec_split_list(inner_v),
        ));
    }
    while piece_end < in_len
        invariant
            0 <= start <= in_len,
            start <= piece_end <= in_len,
            in_len == inner@.len(),
            inner@ == inner_v,
            piece_end == spec_find_sep(inner_v, start as int),
            spec_clean(spec_split_list(inner_v)) == out.deep_view() + spec_clean(
                spec_split_list(inner_v.skip(start as int)),
            ),
        decreases in_len - start,
    {
        let ghost tail = inner_v.skip(start as int);
        proof {
            lemma_find_sep_skip(inner_v, start as int);
            lemma_spec_find_sep_range(inner_v, start as int);
            assert(spec_find_sep(tail, 0) == piece_end - start < tail.len());
            assert(tail.take(piece_end - start) =~= inner_v.subrange(
                start as int,
                piece_end as int,
            ));
            assert(tail.skip(piece_end - start + 2) =~= inner_v.skip(piece_end + 2));
            lemma_clean_cons(tail.take(piece_end - start), spec_split_list(tail.skip(
                piece_end - start + 2,
            )));
        }
        let q = unquote_piece(&inner, start, piece_end);
        match q {
            Some(elem) => {
                if elem.as_str().unicode_len() > 0 {
                    let ghost pre = out;
                    out.push(elem);
                    proof {
                        lemma_string_deep_view_push(pre, out);
                        assert(out.deep_view() + spec_clean(spec_split_list(inner_v.skip(
                            piece_end + 2,
                        ))) =~= pre.deep_view() + (seq![elem@] + spec_clean(spec_split_list(
                            inner_v.skip(piece_end + 2),
                        ))));
                    }
                }
            },
            None => {},
        }
        start = piece_end + 2;
        piece_end = find_sep(inner.as_str(), start);
    }
    let ghost tail = inner_v.skip(start as int);
    proof {
        lemma_find_sep_skip(inner_v, start as int);
        assert(spec_find_sep(tail, 0) >= tail.len());
        assert(spec_split_list(tail) == seq![tail]);
        assert(tail =~= inner_v.subrange(start as int, in_len as int));
        lemma_clean_one(tail);
    }
    let q = unquote_piece(&inner, start, in_len);
    match q {
        Some(elem) => {
            if elem.as_str().unicode_len() > 0 {
                let ghost pre = out;
                out.push(elem);
                proof {
                    lemma_string_deep_view_push(pre, out);
                    assert(pre.deep_view() + seq![elem@] =~= out.deep_view());
                    assert(out.deep_view() =~= pre.deep_view() + (seq![elem@]
                        + Seq::<Seq<char>>::empty()));
                }
            } else {
                proof {
                    assert(out.deep_view() + Seq::<Seq<char>>::empty() =~= out.deep_view());
                }
            }
        },
        None => {
            proof {
                assert(out.deep_view() + Seq::<Seq<char>>::empty() =~= out.deep_view());
            }
        },
    }
    proof {
        assert(spec_requires_elements(payload@) == Some(spec_clean(spec_split_list(inner_v))));
    }
    Ok(out)
}

/// The element was accepted: its name and extra tokens end cleanly (so
/// the parser can be consulted at all), and — when it is `$`-free, so
/// that the parser's environment expansion cannot interfere — it parses
/// as a dependency specifier.
pub open spec fn spec_element_ok(e: Seq<char>) -> bool {
    spec_name_tokens_clean(e) && (dollar_free(e) ==> requirement_parses(e))
}

/// Every element of `elems` was accepted.
pub open spec fn all_parse(elems: Seq<Seq<char>>) -> bool {
    forall|i: int| 0 <= i < elems.len() ==> spec_element_ok(#[trigger] elems[i])
}

/// The element at `i` was refused first: every earlier element was
/// accepted; this one has an unclean name token, or — if clean and
/// `$`-free — the parser refused it; and the error carries it as its
/// payload.
pub open spec fn spec_first_refused(elems: Seq<Seq<char>>, i: int, e: ErrV) -> bool {
    &&& 0 <= i < elems.len()
    &&& (spec_name_tokens_clean(elems[i]) && dollar_free(elems[i])) ==> !requirement_parses(
        elems[i],
    )
    &&& forall|j: int| 0 <= j < i ==> spec_element_ok(#[trigger] elems[j])
    &&& e matches ErrV::InvalidResult(p, _) && p == elems[i]
}

/// Parses each requirement string of a payload's element list; the first
/// element that is refused — for an unclean name token, or by the parser
/// itself — fails the whole result with an invalid-result error carrying
/// that element. For clean, `$`-free elements the parser's verdict is
/// fixed by the element's text.
pub fn parse_requirements(elements: &Vec<String>) -> (r: Result<
    Vec<ParsedRequirement>,
    DaemonError,
>)
    ensures
        match r {
            Ok(reqs) => reqs@.len() == elements@.len() && all_parse(elements.deep_view()),
            Err(e) => exists|i: int| spec_first_refused(elements.deep_view(), i, e@),
        },
{
    let mut reqs: Vec<ParsedRequirement> = Vec::new();
    let n = elements.len();
    let mut i: usize = 0;
    while i < n
        invariant
            0 <= i <= n,
            n == elements@.len(),
            reqs@.len() == i,
            forall|j: int| 0 <= j < i ==> spec_element_ok(#[trigger] elements.deep_view()[j]),
        decreases n - i,
    {
        proof {
            assert(elements.deep_view()[i as int] == elements@[i as int]@);
        }
        if !name_tokens_clean(elements[i].as_str()) {
            let failed = DaemonError::InvalidResult(
                elements[i].clone(),
                String::from_str("a name or extra token may not end in '-', '_' or '.'"),
            );
            proof {
                assert(spec_first_refused(elements.deep_view(), i as int, failed@));
            }
            return Err(failed);
        }
        match parse_requirement(elements[i].as_str()) {
            Ok(req) => {
                reqs.push(req);
            },
            Err(reason) => {
                let failed = DaemonError::InvalidResult(elements[i].clone(), reason);
                proof {
                    assert(spec_first_refused(elements.deep_view(), i as int, failed@));
                }
                return Err(failed);
            },
        }
        i = i + 1;
    }
    Ok(reqs)
}

/// Interprets a full `get_requires_for_build_*` payload: the bracketed
/// list is split into requirement strings and each string parsed as a
/// dependency specifier. The first string the parser refuses fails the
/// result; for `$`-free strings that verdict is fixed by the text.
pub fn interpret_requires_result(payload: &str) -> (r: Result<Vec<ParsedRequirement>, DaemonError>)
    ensures
        match r {
            Ok(reqs) => (spec_requires_elements(payload@) matches Some(elems) && reqs@.len()
                == elems.len() && all_parse(elems)),
            Err(e) => match spec_requires_elements(payload@) {
                None => e@ == ErrV::InvalidResult(payload@, "expected a bracketed list"@),
                Some(elems) => exists|i: int| spec_first_refused(elems, i, e@),
            },
        },
{
    let elems = match parse_requires_elements(payload) {
        Ok(v) => v,
        Err(e) => {
            return Err(e);
        },
    };
    let r = parse_requirements(&elems);
    proof {
        let sv = spec_requires_elements(payload@)->Some_0;
        assert(sv == elems.deep_view());
        if r is Err {
            let e = r->Err_0;
            let i0 = choose|i: int| spec_first_refused(elems.deep_view(), i, e@);
            assert(spec_first_refused(sv, i0, e@));
        }
    }
    r
}

/// One split step: cleaning a list that starts with piece `p` keeps `p`'s
/// content when its quotes are there and it is non-empty.
proof fn lemma_clean_cons(p: Seq<char>, rest: Seq<Seq<char>>)
    ensures
        spec_clean(seq![p] + rest) == (match spec_unquote(p) {
            Some(q) => if q.len() > 0 {
                seq![q] + spec_clean(rest)
            } else {
                spec_clean(rest)
            },
            None => spec_clean(rest),
        }),
{
    assert((seq![p] + rest)[0] == p);
    assert((seq![p] + rest).skip(1) =~= rest);
}

/// Cleaning a single piece.
proof fn lemma_clean_one(p: Seq<char>)
    ensures
        spec_clean(seq![p]) == (match spec_unquote(p) {
            Some(q) => if q.len() > 0 {
                seq![q] + Seq::<Seq<char>>::empty()
            } else {
                Seq::<Seq<char>>::empty()
            },
            None => Seq::<Seq<char>>::empty(),
        }),
{
    assert(seq![p].skip(1) =~= Seq::<Seq<char>>::empty());
    assert(spec_clean(seq![p].skip(1)) == Seq::<Seq<char>>::empty());
}

/// Strips the single quotes of the piece of `inner` in `[start, end)`,
/// handing back its content, or nothing when a quote is missing.
fn unquote_piece(inner: &String, start: usize, end: usize) -> (r: Option<String>)
    requires
        start <= end <= inner@.len(),
    ensures
        match r {
            Some(q) => spec_unquote(inner@.subrange(start as int, end as int)) == Some(q@),
            None => spec_unquote(inner@.subrange(start as int, end as int)) is None,
        },
{
    let s = inner.as_str();
    if end - start >= 2 && s.get_char(start) == '\'' && s.get_char(end - 1) == '\'' {
        let q = substr(s, start + 1, end - 1);
        proof {
            let piece = inner@.subrange(start as int, end as int);
            assert(piece[0] == inner@[start as int]);
            assert(piece[piece.len() - 1] == inner@[end - 1]);
            assert(piece.subrange(1, piece.len() - 1) =~= inner@.subrange(
                start + 1,
                end - 1,
            ));
        }
        Some(q)
    } else {
        proof {
            let piece = inner@.subrange(start as int, end as int);
            if piece.len() >= 2 {
                assert(piece[0] == inner@[start as int]);
                assert(piece[piece.len() - 1] == inner@[end - 1]);
            }
        }
        None
    }
}

/// Finding a separator in a suffix is finding it in the whole, shifted.
proof fn lemma_find_sep_skip(s: Seq<char>, start: int)
    requires
        0 <= start <= s.len(),
    ensures
        spec_find_sep(s.skip(start), 0) == spec_find_sep(s, start) - start,
{
    lemma_find_sep_skip_from(s, start, start);
}

proof fn lemma_find_sep_skip_from(s: Seq<char>, start: int, from: int)
    requires
        0 <= start <= from <= s.len(),
    ensures
        spec_find_sep(s.skip(start), from - start) == spec_find_sep(s, from) - start,
    decreases s.len() - from,
{
    let t = s.skip(start);
    if from + 1 >= s.len() {
    } else if s[from] == ',' && s[from + 1] == ' ' {
        assert(t[from - start] == s[from]);
        assert(t[from - start + 1] == s[from + 1]);
    } else {
        assert(t[from - start] == s[from]);
        assert(t[from - start + 1] == s[from + 1]);
        lemma_find_sep_skip_from(s, start, from + 1);
    }
}

/// `e` holds no `", "` separator, so splitting never cuts through it.
pub open spec fn sep_free(e: Seq<char>) -> bool {
    forall|i: int| 0 <= i < e.len() - 1 ==> !((#[trigger] e[i]) == ',' && e[i + 1] == ' ')
}

/// `e` wrapped in single quotes.
pub open spec fn spec_quoted(e: Seq<char>) -> Seq<char> {
    seq!['\''] + e + seq!['\'']
}

/// The inside of a rendered requirements list: the quoted elements joined
/// by `", "`.
pub open spec fn spec_render_inner(elems: Seq<Seq<char>>) -> Seq<char>
    decreases elems.len(),
{
    if elems.len() == 0 {
        Seq::empty()
    } else if elems.len() == 1 {
        spec_quoted(elems[0])
    } else {
        spec_quoted(elems[0]) + ", "@ + spec_render_inner(elems.skip(1))
    }
}

/// A rendered requirements list: the quoted elements joined by `", "`,
/// wrapped in brackets.
pub open spec fn spec_render_list(elems: Seq<Seq<char>>) -> Seq<char> {
    seq!['['] + spec_render_inner(elems) + seq![']']
}

/// Renders requirement strings back into the list form the child uses.
pub fn render_requires_list(elements: &Vec<String>) -> (r: String)
    ensures
        r@ == spec_render_list(elements.deep_view()),
{
    let ghost all = elements.deep_view();
    let mut out = String::from_str("[");
    let n = elements.len();
    let mut i: usize = 0;
    proof {
        reveal_strlit("[");
        reveal_strlit("]");
        reveal_strlit("'");
        reveal_strlit(", ");
        assert("["@ =~= seq!['[']);
        assert("]"@ =~= seq![']']);
        assert("'"@ =~= seq!['\'']);
    }
    while i < n
        invariant
            0 <= i <= n,
            n == elements@.len(),
            all == elements.deep_view(),
            out@ == seq!['['] + spec_render_inner(all.take(i as int)),
        decreases n - i,
    {
        proof {
            reveal_strlit("'");
            reveal_strlit(", ");
            assert("'"@ =~= seq!['\'']);
            assert(all[i as int] == elements@[i as int]@);
        }
        if i > 0 {
            out.append(", ");
        }
        out.append("'");
        out.append(elements[i].as_str());
        out.append("'");
        proof {
            if i == 0 {
                assert(all.take(1).len() == 1);
                assert(all.take(1)[0] == all[0]);
                assert(out@ =~= seq!['['] + spec_quoted(all[0]));
            } else {
                lemma_render_inner_push(all.take(i as int), all[i as int]);
                assert(all.take(i as int).push(all[i as int]) =~= all.take(i + 1));
                assert(out@ =~= seq!['['] + spec_render_inner(all.take(i + 1)));
            }
        }
        i = i + 1;
    }
    out.append("]");
    proof {
        if n > 0 {
            assert(all.take(n as int) =~= all);
        } else {
            assert(all.take(0) =~= all);
        }
        assert(out@ =~= seq!['['] + spec_render_inner(all) + seq![']']);
    }
    out
}

proof fn lemma_render_inner_push(s: Seq<Seq<char>>, x: Seq<char>)
    requires
        s.len() >= 1,
    ensures
        spec_render_inner(s.push(x)) == spec_render_inner(s) + ", "@ + spec_quoted(x),
    decreases s.len(),
{
    if s.len() == 1 {
        assert(s.push(x).len() == 2);
        assert(s.push(x)[0] == s[0]);
        assert(s.push(x).skip(1) =~= seq![x]);
        assert(spec_render_inner(seq![x]) == spec_quoted(x));
    } else {
        assert(s.push(x)[0] == s[0]);
        assert(s.push(x).skip(1) =~= s.skip(1).push(x));
        lemma_render_inner_push(s.skip(1), x);
        assert(spec_quoted(s[0]) + ", "@ + (spec_render_inner(s.skip(1)) + ", "@ + spec_quoted(x))
            =~= (spec_quoted(s[0]) + ", "@ + spec_render_inner(s.skip(1))) + ", "@ + spec_quoted(
            x,
        ));
    }
}

proof fn lemma_find_sep_at(s: Seq<char>, from: int, q: int)
    requires
        0 <= from <= q,
        q + 1 < s.len(),
        s[q] == ',',
        s[q + 1] == ' ',
        forall|i: int| from <= i < q ==> !((#[trigger] s[i]) == ',' && s[i + 1] == ' '),
    ensures
        spec_find_sep(s, from) == q,
    decreases q - from,
{
    if from < q {
        lemma_find_sep_at(s, from + 1, q);
    }
}

proof fn lemma_find_sep_none(s: Seq<char>, from: int)
    requires
        0 <= from <= s.len(),
        forall|i: int| from <= i < s.len() - 1 ==> !((#[trigger] s[i]) == ',' && s[i + 1] == ' '),
    ensures
        spec_find_sep(s, from) == s.len(),
    decreases s.len() - from,
{
    if from + 1 < s.len() {
        lemma_find_sep_none(s, from + 1);
    }
}

proof fn lemma_find_sep_min(s: Seq<char>, from: int)
    requires
        0 <= from <= s.len(),
    ensures
        forall|i: int|
            from <= i < spec_find_sep(s, from) && i + 1 < s.len() ==> !((#[trigger] s[i]) == ','
                && s[i + 1] == ' '),
    decreases s.len() - from,
{
    if from + 1 < s.len() && !(s[from] == ',' && s[from + 1] == ' ') {
        lemma_find_sep_min(s, from + 1);
    }
}

/// No separator hides inside a quoted, separator-free element.
proof fn lemma_quoted_sep_free(e: Seq<char>)
    requires
        sep_free(e),
    ensures
        sep_free(spec_quoted(e)),
{
    let q = spec_quoted(e);
    assert forall|i: int| 0 <= i < q.len() - 1 implies !((#[trigger] q[i]) == ',' && q[i + 1]
        == ' ') by {
        if i == 0 {
            assert(q[0] == '\'');
        } else {
            assert(q[i] == e[i - 1]);
            if i < e.len() {
                assert(q[i + 1] == e[i]);
            } else {
                assert(q[i + 1] == '\'');
            }
        }
    }
}

/// Rendering separator-free, non-empty elements and splitting the result
/// back apart returns exactly those elements.
proof fn lemma_clean_split_render(elems: Seq<Seq<char>>)
    requires
        forall|i: int| 0 <= i < elems.len() ==> (#[trigger] elems[i]).len() > 0,
        forall|i: int| 0 <= i < elems.len() ==> sep_free(#[trigger] elems[i]),
    ensures
        spec_clean(spec_split_list(spec_render_inner(elems))) == elems,
    decreases elems.len(),
{
    if elems.len() == 0 {
        let s = spec_render_inner(elems);
        assert(s.len() == 0);
        assert(spec_split_list(s) == seq![s]);
        lemma_clean_one(s);
        assert(spec_clean(spec_split_list(s)) =~= elems);
    } else if elems.len() == 1 {
        let e = elems[0];
        let q = spec_quoted(e);
        lemma_quoted_sep_free(e);
        lemma_find_sep_none(q, 0);
        assert(spec_split_list(q) == seq![q]);
        lemma_clean_one(q);
        assert(q[0] == '\'');
        assert(q[q.len() - 1] == '\'');
        assert(q.subrange(1, q.len() - 1) =~= e);
        assert(spec_unquote(q) == Some(e));
        assert(spec_clean(spec_split_list(q)) =~= seq![e]);
        assert(elems =~= seq![e]);
    } else {
        let e = elems[0];
        let q = spec_quoted(e);
        let rest = spec_render_inner(elems.skip(1));
        let s = spec_render_inner(elems);
        reveal_strlit(", ");
        assert(", "@ =~= seq![',', ' ']);
        assert(s == q + ", "@ + rest);
        let ql = q.len() as int;
        lemma_quoted_sep_free(e);
        assert(s[ql] == ',');
        assert(s[ql + 1] == ' ');
        assert(rest.len() > 0) by {
            assert(elems.skip(1).len() >= 1);
            if elems.skip(1).len() == 1 {
                assert(rest == spec_quoted(elems.skip(1)[0]));
            }
        }
        assert forall|i: int| 0 <= i < ql implies !((#[trigger] s[i]) == ',' && s[i + 1] == ' ') by {
            if i < ql - 1 {
                assert(s[i] == q[i]);
                assert(s[i + 1] == q[i + 1]);
            } else {
                assert(s[i] == q[ql - 1]);
                assert(q[ql - 1] == '\'');
            }
        }
        lemma_find_sep_at(s, 0, ql);
        assert(s.take(ql) =~= q);
        assert(s.skip(ql + 2) =~= rest);
        assert(spec_split_list(s) == seq![q] + spec_split_list(rest));
        lemma_clean_cons(q, spec_split_list(rest));
        assert(q[0] == '\'');
        assert(q[q.len() - 1] == '\'');
        assert(q.subrange(1, q.len() - 1) =~= e);
        assert(spec_unquote(q) == Some(e));
        assert forall|i: int| 0 <= i < elems.skip(1).len() implies (#[trigger] elems.skip(1)[i]).len()
            > 0 && sep_free(elems.skip(1)[i]) by {
            assert(elems.skip(1)[i] == elems[i + 1]);
        }
        lemma_clean_split_render(elems.skip(1));
        assert(spec_clean(spec_split_list(s)) =~= seq![e] + elems.skip(1));
        assert(seq![e] + elems.skip(1) =~= elems);
    }
}

/// Re-emitting separator-free, non-empty requirement strings as a list and
/// parsing that list gives back exactly those strings.
pub proof fn lemma_requires_render_parse(elems: Seq<Seq<char>>)
    requires
        forall|i: int| 0 <= i < elems.len() ==> (#[trigger] elems[i]).len() > 0,
        forall|i: int| 0 <= i < elems.len() ==> sep_free(#[trigger] elems[i]),
    ensures
        spec_requires_elements(spec_render_list(elems)) == Some(elems),
{
    let s = spec_render_list(elems);
    let inner = spec_render_inner(elems);
    assert(s[0] == '[');
    assert(s[s.len() - 1] == ']');
    assert(s.subrange(1, s.len() - 1) =~= inner);
    lemma_clean_split_render(elems);
}

/// Every requirement string that parsing a payload produces is non-empty
/// and free of the `", "` separator.
proof fn lemma_parsed_elements_wf(s: Seq<char>)
    ensures
        forall|i: int|
            0 <= i < spec_clean(spec_split_list(s)).len() ==> (#[trigger] spec_clean(
                spec_split_list(s),
            )[i]).len() > 0 && sep_free(spec_clean(spec_split_list(s))[i]),
    decreases s.len(),
{
    lemma_spec_find_sep_range(s, 0);
    lemma_find_sep_min(s, 0);
    let k = spec_find_sep(s, 0);
    if k >= s.len() {
        assert(spec_split_list(s) == seq![s]);
        lemma_clean_one(s);
        match spec_unquote(s) {
            Some(q) => {
                if q.len() > 0 {
                    assert(sep_free(q)) by {
                        assert forall|i: int| 0 <= i < q.len() - 1 implies !((#[trigger] q[i])
                            == ',' && q[i + 1] == ' ') by {
                            assert(q[i] == s[i + 1]);
                            assert(q[i + 1] == s[i + 2]);
                        }
                    }
                    assert(spec_clean(spec_split_list(s)) == seq![q] + Seq::<Seq<char>>::empty());
                    assert(spec_clean(spec_split_list(s))[0] == q);
                }
            },
            None => {},
        }
    } else {
        let piece = s.take(k);
        let rest = s.skip(k + 2);
        assert(spec_split_list(s) == seq![piece] + spec_split_list(rest));
        lemma_clean_cons(piece, spec_split_list(rest));
        lemma_parsed_elements_wf(rest);
        let tail_clean = spec_clean(spec_split_list(rest));
        match spec_unquote(piece) {
            Some(q) => {
                if q.len() > 0 {
                    assert(sep_free(q)) by {
                        assert forall|i: int| 0 <= i < q.len() - 1 implies !((#[trigger] q[i])
                            == ',' && q[i + 1] == ' ') by {
                            assert(q[i] == piece[i + 1]);
                            assert(q[i + 1] == piece[i + 2]);
                            assert(piece[i + 1] == s[i + 1]);
                            assert(piece[i + 2] == s[i + 2]);
                        }
                    }
                    assert(spec_clean(spec_split_list(s)) == seq![q] + tail_clean);
                    assert forall|i: int| 0 <= i < spec_clean(spec_split_list(s)).len() implies (
                    #[trigger] spec_clean(spec_split_list(s))[i]).len() > 0 && sep_free(
                        spec_clean(spec_split_list(s))[i],
                    ) by {
                        if i == 0 {
                            assert(spec_clean(spec_split_list(s))[0] == q);
                        } else {
                            assert(spec_clean(spec_split_list(s))[i] == tail_clean[i - 1]);
                        }
                    }
                }
            },
            None => {},
        }
    }
}

/// Parsing a requirements-list payload and re-emitting what it yields
/// preserves the requirement strings, elements and order alike.
pub proof fn lemma_requires_round_trip(payload: Seq<char>)
    requires
        spec_requires_elements(payload) is Some,
    ensures
        spec_requires_elements(spec_render_list(spec_requires_elements(payload)->Some_0))
            == spec_requires_elements(payload),
{
    let inner = payload.subrange(1, payload.len() - 1);
    let elems = spec_clean(spec_split_list(inner));
    lemma_parsed_elements_wf(inner);
    lemma_requires_render_parse(elems);
}

/// Pushing onto a vector of strings appends to its deep view.
proof fn lemma_string_deep_view_push(pre: Vec<String>, post: Vec<String>)
    requires
        post@.len() == pre@.len() + 1,
        forall|i: int| 0 <= i < pre@.len() ==> post@[i] == pre@[i],
    ensures
        post.deep_view() =~= pre.deep_view().push(post@[post@.len() - 1]@),
{
    assert forall|t: int| 0 <= t < post@.len() implies post.deep_view()[t] == pre.deep_view().push(
        post@[post@.len() - 1]@,
    )[t] by {
        if t < pre@.len() {
            assert(post@[t] == pre@[t]);
        }
    }
}

} // verus!
