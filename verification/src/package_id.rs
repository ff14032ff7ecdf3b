//! Package identities: canonical package names and canonical URLs.
//!
//! A registry package is keyed by its canonicalized name — ASCII letters
//! lowercased and every run of `-`, `_` and `.` collapsed to a single `-`.
//! A direct-URL package is keyed by its URL with the fragment stripped.
use vstd::prelude::*;

use crate::strutil::{find_char, spec_find, string_eq, substr};

verus! {

/// The characters a canonical name collapses.
pub open spec fn is_name_sep(c: char) -> bool {
    c == '-' || c == '_' || c == '.'
}

/// `c` with an upper-case ASCII letter brought to lower case.
pub open spec fn spec_lower_char(c: char) -> char {
    match c {
        'A' => 'a',
        'B' => 'b',
        'C' => 'c',
        'D' => 'd',
        'E' => 'e',
        'F' => 'f',
        'G' => 'g',
        'H' => 'h',
        'I' => 'i',
        'J' => 'j',
        'K' => 'k',
        'L' => 'l',
        'M' => 'm',
        'N' => 'n',
        'O' => 'o',
        'P' => 'p',
        'Q' => 'q',
        'R' => 'r',
        'S' => 's',
        'T' => 't',
        'U' => 'u',
        'V' => 'v',
        'W' => 'w',
        'X' => 'x',
        'Y' => 'y',
        'Z' => 'z',
        _ => c,
    }
}

/// How many separator characters `s` starts with.
pub open spec fn spec_sep_run(s: Seq<char>) -> int
    decreases s.len(),
{
    if s.len() > 0 && is_name_sep(s[0]) {
        1 + spec_sep_run(s.skip(1))
    } else {
        0
    }
}

pub proof fn lemma_sep_run_range(s: Seq<char>)
    ensures
        0 <= spec_sep_run(s) <= s.len(),
    decreases s.len(),
{
    if s.len() > 0 && is_name_sep(s[0]) {
        lemma_sep_run_range(s.skip(1));
    }
}

/// The canonical form of a package name: letters lowercased, every run of
/// `-`, `_` and `.` replaced by one `-`.
pub open spec fn spec_canonical_name(s: Seq<char>) -> Seq<char>
    decreases s.len(),
    via spec_canonical_name_decreases
{
    if s.len() == 0 {
        Seq::empty()
    } else if is_name_sep(s[0]) {
        seq!['-'] + spec_canonical_name(s.skip(spec_sep_run(s)))
    } else {
        seq![spec_lower_char(s[0])] + spec_canonical_name(s.skip(1))
    }
}

#[via_fn]
proof fn spec_canonical_name_decreases(s: Seq<char>) {
    lemma_sep_run_range(s);
    if s.len() > 0 && is_name_sep(s[0]) {
        lemma_sep_run_range(s.skip(1));
    }
}

/// Appends the lowercase form of the character of `s` at `i`.
fn append_lower_char(out: &mut String, s: &str, i: usize)
    requires
        i < s@.len(),
        i + 1 <= usize::MAX,
    ensures
        final(out)@ == old(out)@ + seq![spec_lower_char(s@[i as int])],
{
    match s.get_char(i) {
        'A' => {
            proof {
                reveal_strlit("a");
                assert("a"@ =~= seq!['a']);
            }
            out.append("a");
        },
        'B' => {
            proof {
                reveal_strlit("b");
                assert("b"@ =~= seq!['b']);
            }
            out.append("b");
        },
        'C' => {
            proof {
                reveal_strlit("c");
                assert("c"@ =~= seq!['c']);
            }
            out.append("c");
        },
        'D' => {
            proof {
                reveal_strlit("d");
                assert("d"@ =~= seq!['d']);
            }
            out.append("d");
        },
        'E' => {
            proof {
                reveal_strlit("e");
                assert("e"@ =~= seq!['e']);
            }
            out.append("e");
        },
        'F' => {
            proof {
                reveal_strlit("f");
                assert("f"@ =~= seq!['f']);
            }
            out.append("f");
        },
        'G' => {
            proof {
                reveal_strlit("g");
                assert("g"@ =~= seq!['g']);
            }
            out.append("g");
        },
        'H' => {
            proof {
                reveal_strlit("h");
                assert("h"@ =~= seq!['h']);
            }
            out.append("h");
        },
        'I' => {
            proof {
                reveal_strlit("i");
                assert("i"@ =~= seq!['i']);
            }
            out.append("i");
        },
        'J' => {
            proof {
                reveal_strlit("j");
                assert("j"@ =~= seq!['j']);
            }
            out.append("j");
        },
        'K' => {
            proof {
                reveal_strlit("k");
                assert("k"@ =~= seq!['k']);
            }
            out.append("k");
        },
        'L' => {
            proof {
                reveal_strlit("l");
                assert("l"@ =~= seq!['l']);
            }
            out.append("l");
        },
        'M' => {
            proof {
                reveal_strlit("m");
                assert("m"@ =~= seq!['m']);
            }
            out.append("m");
        },
        'N' => {
            proof {
                reveal_strlit("n");
                assert("n"@ =~= seq!['n']);
            }
            out.append("n");
        },
        'O' => {
            proof {
                reveal_strlit("o");
                assert("o"@ =~= seq!['o']);
            }
            out.append("o");
        },
        'P' => {
            proof {
                reveal_strlit("p");
                assert("p"@ =~= seq!['p']);
            }
            out.append("p");
        },
        'Q' => {
            proof {
                reveal_strlit("q");
                assert("q"@ =~= seq!['q']);
            }
            out.append("q");
        },
        'R' => {
            proof {
                reveal_strlit("r");
                assert("r"@ =~= seq!['r']);
            }
            out.append("r");
        },
        'S' => {
            proof {
                reveal_strlit("s");
                assert("s"@ =~= seq!['s']);
            }
            out.append("s");
        },
        'T' => {
            proof {
                reveal_strlit("t");
                assert("t"@ =~= seq!['t']);
            }
            out.append("t");
        },
        'U' => {
            proof {
                reveal_strlit("u");
                assert("u"@ =~= seq!['u']);
            }
            out.append("u");
        },
        'V' => {
            proof {
                reveal_strlit("v");
                assert("v"@ =~= seq!['v']);
            }
            out.append("v");
        },
        'W' => {
            proof {
                reveal_strlit("w");
                assert("w"@ =~= seq!['w']);
            }
            out.append("w");
        },
        'X' => {
            proof {
                reveal_strlit("x");
                assert("x"@ =~= seq!['x']);
            }
            out.append("x");
        },
        'Y' => {
            proof {
                reveal_strlit("y");
                assert("y"@ =~= seq!['y']);
            }
            out.append("y");
        },
        'Z' => {
            proof {
                reveal_strlit("z");
                assert("z"@ =~= seq!['z']);
            }
            out.append("z");
        },
        _ => {
            proof {
                assert(s@.subrange(i as int, i + 1) =~= seq![s@[i as int]]);
            }
            out.append(s.substring_char(i, i + 1));
        },
    }
}

/// A separator run reaches exactly to the first non-separator.
proof fn lemma_sep_run_is(s: Seq<char>, start: int, stop: int)
    requires
        0 <= start <= stop <= s.len(),
        forall|j: int| start <= j < stop ==> is_name_sep(#[trigger] s[j]),
        stop == s.len() || !is_name_sep(s[stop as int]),
    ensures
        spec_sep_run(s.skip(start)) == stop - start,
    decreases stop - start,
{
    let t = s.skip(start);
    if start < stop {
        assert(t[0] == s[start]);
        assert(t.skip(1) =~= s.skip(start + 1));
        lemma_sep_run_is(s, start + 1, stop);
    } else {
        if start < s.len() {
            assert(t[0] == s[start]);
        }
    }
}

/// Canonicalizes a package name.
#[verifier::loop_isolation(false)]
pub fn canonical_name(s: &str) -> (r: String)
    ensures
        r@ == spec_canonical_name(s@),
{
    let n = s.unicode_len();
    let mut out = String::new();
    let mut i: usize = 0;
    proof {
        assert(s@.skip(0) =~= s@);
        assert(out@ + spec_canonical_name(s@) =~= spec_canonical_name(s@));
    }
    while i < n
        invariant
            0 <= i <= n,
            spec_canonical_name(s@) == out@ + spec_canonical_name(s@.skip(i as int)),
        decreases n - i,
    {
        let c = s.get_char(i);
        if c == '-' || c == '_' || c == '.' {
            proof {
                reveal_strlit("-");
                assert("-"@ =~= seq!['-']);
            }
            out.append("-");
            let ghost start = i as int;
            i = i + 1;
            while i < n
                invariant
                    start < i <= n,
                    forall|j: int| start <= j < i ==> is_name_sep(#[trigger] s@[j]),
                    is_name_sep(s@[start]),
                decreases n - i,
            {
                let c2 = s.get_char(i);
                if !(c2 == '-' || c2 == '_' || c2 == '.') {
                    break;
                }
                i = i + 1;
            }
            proof {
                lemma_sep_run_is(s@, start, i as int);
                assert(s@.skip(start).skip(i - start) =~= s@.skip(i as int));
                assert(spec_canonical_name(s@.skip(start)) == seq!['-'] + spec_canonical_name(
                    s@.skip(i as int),
                ));
            }
        } else {
            append_lower_char(&mut out, s, i);
            proof {
                assert(s@.skip(i as int)[0] == s@[i as int]);
                assert(!is_name_sep(s@.skip(i as int)[0]));
                assert(s@.skip(i as int).skip(1) =~= s@.skip(i + 1));
            }
            i = i + 1;
        }
    }
    proof {
        assert(s@.skip(n as int) =~= Seq::<char>::empty());
        assert(out@ + Seq::<char>::empty() =~= out@);
    }
    out
}

/// A canonicalized package name.
#[derive(Debug, Eq, PartialEq, Clone)]
pub struct PackageName {
    pub name: String,
}

impl View for PackageName {
    type V = Seq<char>;

    open spec fn view(&self) -> Seq<char> {
        self.name@
    }
}

impl PackageName {
    /// Canonicalizes `name` into a package name.
    pub fn new(name: &str) -> (r: PackageName)
        ensures
            r@ == spec_canonical_name(name@),
    {
        PackageName { name: canonical_name(name) }
    }

    /// The canonical text of the name.
    pub fn as_str(&self) -> (r: &str)
        ensures
            r@ == self@,
    {
        self.name.as_str()
    }
}

/// A URL with its fragment stripped: everything before the first `#`.
pub open spec fn spec_canonical_url(u: Seq<char>) -> Seq<char> {
    u.take(spec_find(u, '#', 0))
}

/// Strips the fragment of a URL.
pub fn canonical_url(u: &str) -> (r: String)
    ensures
        r@ == spec_canonical_url(u@),
{
    let n = u.unicode_len();
    let k = find_char(u, '#', 0);
    let r = substr(u, 0, k);
    proof {
        assert(r@ =~= u@.take(spec_find(u@, '#', 0)));
    }
    r
}

/// The canonical key of one logical artifact: a registry package by
/// canonical name, or a direct-URL package by canonical URL.
#[derive(Debug, Eq, PartialEq, Clone)]
pub enum PackageId {
    Registry(PackageName),
    Url(String),
}

/// Mathematical model of a [`PackageId`].
pub enum PidV {
    Registry(Seq<char>),
    Url(Seq<char>),
}

impl View for PackageId {
    type V = PidV;

    open spec fn view(&self) -> PidV {
        match self {
            PackageId::Registry(n) => PidV::Registry(n@),
            PackageId::Url(u) => PidV::Url(u@),
        }
    }
}

impl PackageId {
    /// The identity of a registry package.
    pub fn from_registry(name: PackageName) -> (r: PackageId)
        ensures
            r@ == PidV::Registry(name@),
    {
        PackageId::Registry(name)
    }

    /// The identity of a direct-URL package: the URL, fragment stripped.
    pub fn from_url(url: &str) -> (r: PackageId)
        ensures
            r@ == PidV::Url(spec_canonical_url(url@)),
    {
        PackageId::Url(canonical_url(url))
    }

    /// Whether two identities name the same artifact.
    pub fn key_eq(&self, other: &PackageId) -> (r: bool)
        ensures
            r == (self@ == other@),
    {
        match (self, other) {
            (PackageId::Registry(a), PackageId::Registry(b)) => string_eq(&a.name, b.name.as_str()),
            (PackageId::Url(a), PackageId::Url(b)) => string_eq(a, b.as_str()),
            _ => false,
        }
    }
}

} // verus!
