//! Character-level string helpers shared by the protocol parser and the
//! digest formatter: searching, slicing, escape decoding and line joining.
use vstd::prelude::*;

verus! {

/// Index of the first occurrence of `c` in `s` at or after `from`;
/// `s.len()` when there is none.
pub open spec fn spec_find(s: Seq<char>, c: char, from: int) -> int
    recommends
        0 <= from <= s.len(),
    decreases s.len() - from when 0 <= from <= s.len()
{
    if from >= s.len() {
        s.len() as int
    } else if s[from] == c {
        from
    } else {
        spec_find(s, c, from + 1)
    }
}

/// First occurrence of `c` in `s` at or after `from`, or the length of `s`.
pub fn find_char(s: &str, c: char, from: usize) -> (r: usize)
    requires
        from <= s@.len(),
    ensures
        r == spec_find(s@, c, from as int),
        from <= r <= s@.len(),
{
    let n = s.unicode_len();
    let mut i = from;
    while i < n
        invariant
            from <= i <= n,
            n == s@.len(),
            spec_find(s@, c, from as int) == spec_find(s@, c, i as int),
        decreases n - i,
    {
        if s.get_char(i) == c {
            return i;
        }
        i = i + 1;
    }
    i
}

/// Whether `a` holds exactly the characters of `b`.
pub fn string_eq(a: &String, b: &str) -> (r: bool)
    ensures
        r == (a@ == b@),
{
    let bs = String::from_str(b);
    *a == bs
}

/// Owned copy of the characters of `s` in `[from, to)`.
pub fn substr(s: &str, from: usize, to: usize) -> (r: String)
    requires
        from <= to <= s@.len(),
    ensures
        r@ == s@.subrange(from as int, to as int),
{
    String::from_str(s.substring_char(from, to))
}

/// `\n` escape sequences replaced by real newlines, scanning left to right.
pub open spec fn spec_unescape(s: Seq<char>) -> Seq<char>
    decreases s.len(),
{
    if s.len() >= 2 && s[0] == '\\' && s[1] == 'n' {
        seq!['\n'] + spec_unescape(s.skip(2))
    } else if s.len() == 0 {
        s
    } else {
        seq![s[0]] + spec_unescape(s.skip(1))
    }
}

/// Doubled newlines collapsed to single ones, scanning left to right.
pub open spec fn spec_collapse(s: Seq<char>) -> Seq<char>
    decreases s.len(),
{
    if s.len() >= 2 && s[0] == '\n' && s[1] == '\n' {
        seq!['\n'] + spec_collapse(s.skip(2))
    } else if s.len() == 0 {
        s
    } else {
        seq![s[0]] + spec_collapse(s.skip(1))
    }
}

pub fn unescape(s: &str) -> (r: String)
    ensures
        r@ == spec_unescape(s@),
{
    let n = s.unicode_len();
    let mut out = String::new();
    let mut i: usize = 0;
    proof {
        assert(s@.skip(0) =~= s@);
        assert(out@ + s@.skip(0) =~= s@.skip(0));
    }
    while i < n
        invariant
            0 <= i <= n,
            n == s@.len(),
            spec_unescape(s@) == out@ + spec_unescape(s@.skip(i as int)),
        decreases n - i,
    {
        if i + 1 < n && s.get_char(i) == '\\' && s.get_char(i + 1) == 'n' {
            proof {
                assert(s@.skip(i as int)[0] == '\\');
                assert(s@.skip(i as int)[1] == 'n');
                assert(s@.skip(i as int).skip(2) =~= s@.skip(i + 2));
                reveal_strlit("\n");
                assert("\n"@ =~= seq!['\n']);
            }
            out.append("\n");
            i = i + 2;
        } else {
            proof {
                assert(s@.skip(i as int)[0] == s@[i as int]);
                assert(s@.skip(i as int).skip(1) =~= s@.skip(i + 1));
                assert(s@.subrange(i as int, i + 1) =~= seq![s@[i as int]]);
            }
            let piece = s.substring_char(i, i + 1);
            out.append(piece);
            i = i + 1;
        }
    }
    proof {
        assert(s@.skip(n as int) =~= Seq::<char>::empty());
        assert(out@ + Seq::<char>::empty() =~= out@);
    }
    out
}

pub fn collapse(s: &str) -> (r: String)
    ensures
        r@ == spec_collapse(s@),
{
    let n = s.unicode_len();
    let mut out = String::new();
    let mut i: usize = 0;
    proof {
        assert(s@.skip(0) =~= s@);
        assert(out@ + s@.skip(0) =~= s@.skip(0));
    }
    while i < n
        invariant
            0 <= i <= n,
            n == s@.len(),
            spec_collapse(s@) == out@ + spec_collapse(s@.skip(i as int)),
        decreases n - i,
    {
        if i + 1 < n && s.get_char(i) == '\n' && s.get_char(i + 1) == '\n' {
            proof {
                assert(s@.skip(i as int)[0] == '\n');
                assert(s@.skip(i as int)[1] == '\n');
                assert(s@.skip(i as int).skip(2) =~= s@.skip(i + 2));
                reveal_strlit("\n");
                assert("\n"@ =~= seq!['\n']);
            }
            out.append("\n");
            i = i + 2;
        } else {
            proof {
                assert(s@.skip(i as int)[0] == s@[i as int]);
                assert(s@.skip(i as int).skip(1) =~= s@.skip(i + 1));
                assert(s@.subrange(i as int, i + 1) =~= seq![s@[i as int]]);
            }
            let piece = s.substring_char(i, i + 1);
            out.append(piece);
            i = i + 1;
        }
    }
    proof {
        assert(s@.skip(n as int) =~= Seq::<char>::empty());
        assert(out@ + Seq::<char>::empty() =~= out@);
    }
    out
}

/// The lines of a command block joined by single newlines, in order.
pub open spec fn spec_join(lines: Seq<Seq<char>>) -> Seq<char>
    decreases lines.len(),
{
    if lines.len() == 0 {
        Seq::empty()
    } else if lines.len() == 1 {
        lines[0]
    } else {
        lines[0] + seq!['\n'] + spec_join(lines.skip(1))
    }
}

pub fn join_lines(lines: &Vec<String>) -> (r: String)
    ensures
        r@ == spec_join(lines.deep_view()),
{
    let ghost all = lines.deep_view();
    let mut out = String::new();
    let n = lines.len();
    let mut i: usize = 0;
    while i < n
        invariant
            0 <= i <= n,
            n == lines@.len(),
            all == lines.deep_view(),
            all.len() == n,
            i == 0 ==> out@ == Seq::<char>::empty(),
            i > 0 ==> out@ == spec_join(all.take(i as int)),
        decreases n - i,
    {
        proof {
            reveal_strlit("\n");
            assert("\n"@ =~= seq!['\n']);
            assert(all[i as int] == lines@[i as int]@);
        }
        if i > 0 {
            out.append("\n");
            proof {
                lemma_join_push(all.take(i as int), all[i as int]);
                assert(all.take(i as int).push(all[i as int]) =~= all.take(i + 1));
            }
        } else {
            proof {
                assert(all.take(1).len() == 1);
                assert(all.take(1)[0] == all[0]);
            }
        }
        out.append(lines[i].as_str());
        i = i + 1;
    }
    proof {
        if n > 0 {
            assert(all.take(n as int) =~= all);
        }
    }
    out
}

proof fn lemma_join_push(s: Seq<Seq<char>>, x: Seq<char>)
    requires
        s.len() >= 1,
    ensures
        spec_join(s.push(x)) == spec_join(s) + seq!['\n'] + x,
    decreases s.len(),
{
    if s.len() == 1 {
        assert(s.push(x).len() == 2);
        assert(s.push(x)[0] == s[0]);
        assert(s.push(x).skip(1) =~= seq![x]);
        assert(spec_join(seq![x]) == x);
    } else {
        assert(s.push(x)[0] == s[0]);
        assert(s.push(x).skip(1) =~= s.skip(1).push(x));
        lemma_join_push(s.skip(1), x);
        assert(spec_join(s) == s[0] + seq!['\n'] + spec_join(s.skip(1)));
        assert(s[0] + seq!['\n'] + (spec_join(s.skip(1)) + seq!['\n'] + x) =~= (s[0] + seq!['\n']
            + spec_join(s.skip(1))) + seq!['\n'] + x);
    }
}

} // verus!
