//! The parent's side of the wire: the `run` command block sent to the child.
//!
//! A command is a sequence of lines terminated by a blank line: `run`, the
//! backend (`module[:attr]`), the extra backend path roots, a blank line, the
//! hook name, the hook arguments, and a final blank line. Empty fields are
//! sent as empty lines so every command keeps a fixed shape.
use vstd::prelude::*;

use crate::strutil::{join_lines, spec_join};

verus! {

/// Which kind of archive a build hook produces; picks the hook name suffix.
#[derive(Debug, Eq, PartialEq, Clone, Copy, Structural)]
pub enum BuildKind {
    Wheel,
    Editable,
}

impl BuildKind {
    /// The suffix this kind appends to `build_`, `get_requires_for_build_`
    /// and `prepare_metadata_for_build_`.
    pub open spec fn spec_suffix(self) -> Seq<char> {
        match self {
            BuildKind::Wheel => "wheel"@,
            BuildKind::Editable => "editable"@,
        }
    }

    pub fn suffix(&self) -> (r: &'static str)
        ensures
            r@ == self.spec_suffix(),
    {
        match self {
            BuildKind::Wheel => "wheel",
            BuildKind::Editable => "editable",
        }
    }
}

/// A build backend: the dotted module (with an optional `:attr` suffix
/// already joined in) and optional extra source roots for the module search
/// path during hook execution.
#[derive(Debug, Clone)]
pub struct Pep517Backend {
    pub backend: String,
    pub backend_path: Option<Vec<String>>,
}

/// Mathematical model of a [`Pep517Backend`].
pub struct BackendV {
    pub backend: Seq<char>,
    pub backend_path: Option<Seq<Seq<char>>>,
}

impl View for Pep517Backend {
    type V = BackendV;

    open spec fn view(&self) -> BackendV {
        BackendV {
            backend: self.backend@,
            backend_path: match self.backend_path {
                Some(p) => Some(p.deep_view()),
                None => None,
            },
        }
    }
}

/// Pushing onto a vector of strings appends the string's characters to the
/// vector's deep view.
proof fn lemma_deep_view_push(pre: Vec<String>, post: Vec<String>, x: String)
    requires
        post@ == pre@.push(x),
    ensures
        post.deep_view() =~= pre.deep_view().push(x@),
{
    assert forall|t: int| 0 <= t < post@.len() implies post.deep_view()[t]
        == pre.deep_view().push(x@)[t] by {
        if t < pre@.len() {
            assert(post@[t] == pre@[t]);
        } else {
            assert(post@[t] == x);
        }
    }
}

/// The lines of a `run` command, in order.
pub open spec fn spec_command_lines(b: BackendV, hook: Seq<char>, args: Seq<Seq<char>>) -> Seq<
    Seq<char>,
> {
    seq!["run"@, b.backend] + (match b.backend_path {
        Some(p) => p,
        None => Seq::empty(),
    }) + seq![Seq::<char>::empty(), hook] + args + seq![Seq::<char>::empty()]
}

/// The full command block: its lines joined by newlines. Because the last
/// line is blank, the block ends in a newline.
pub open spec fn spec_command_block(b: BackendV, hook: Seq<char>, args: Seq<Seq<char>>) -> Seq<
    char,
> {
    spec_join(spec_command_lines(b, hook, args))
}

/// Renders the command block that asks the child to run `hook_name` on
/// `backend` with the given arguments.
pub fn render_command(backend: &Pep517Backend, hook_name: &str, args: &Vec<String>) -> (r: String)
    ensures
        r@ == spec_command_block(backend@, hook_name@, args.deep_view()),
{
    let ghost target = spec_command_lines(backend@, hook_name@, args.deep_view());
    let mut lines: Vec<String> = Vec::new();
    lines.push(String::from_str("run"));
    lines.push(backend.backend.clone());
    let ghost head = seq!["run"@, backend@.backend];
    proof {
        assert(lines.deep_view() =~= head);
    }
    match &backend.backend_path {
        Some(paths) => {
            let m = paths.len();
            let mut j: usize = 0;
            while j < m
                invariant
                    0 <= j <= m,
                    m == paths@.len(),
                    backend@.backend_path == Some(paths.deep_view()),
                    lines.deep_view() =~= head + paths.deep_view().take(j as int),
                decreases m - j,
            {
                let ghost pre = lines;
                lines.push(paths[j].clone());
                proof {
                    lemma_deep_view_push(pre, lines, paths@[j as int]);
                    assert(paths.deep_view().take(j + 1) =~= paths.deep_view().take(
                        j as int,
                    ).push(paths.deep_view()[j as int]));
                    assert(lines.deep_view() =~= head + paths.deep_view().take(j + 1));
                }
                j = j + 1;
            }
            proof {
                assert(paths.deep_view().take(m as int) =~= paths.deep_view());
            }
        },
        None => {},
    }
    let ghost mid = lines.deep_view();
    lines.push(String::new());
    lines.push(hook_name.to_owned());
    proof {
        assert(lines.deep_view() =~= mid + seq![Seq::<char>::empty(), hook_name@]);
    }
    let ghost mid2 = lines.deep_view();
    let k = args.len();
    let mut i: usize = 0;
    while i < k
        invariant
            0 <= i <= k,
            k == args@.len(),
            lines.deep_view() =~= mid2 + args.deep_view().take(i as int),
        decreases k - i,
    {
        let ghost pre = lines;
        lines.push(args[i].clone());
        proof {
            lemma_deep_view_push(pre, lines, args@[i as int]);
            assert(args.deep_view().take(i + 1) =~= args.deep_view().take(i as int).push(
                args.deep_view()[i as int],
            ));
            assert(lines.deep_view() =~= mid2 + args.deep_view().take(i + 1));
        }
        i = i + 1;
    }
    lines.push(String::new());
    proof {
        assert(args.deep_view().take(k as int) =~= args.deep_view());
        assert(lines.deep_view() =~= target);
    }
    join_lines(&lines)
}

/// The search-path value the child is spawned with: the environment's
/// executable directory first, then the existing search path after a
/// separator, when there is one.
pub fn spawn_path_variable(bin_dir: &str, existing: Option<&str>) -> (r: String)
    ensures
        match existing {
            Some(p) => r@ == bin_dir@ + ":"@ + p@,
            None => r@ == bin_dir@,
        },
{
    let mut out = bin_dir.to_owned();
    match existing {
        Some(p) => {
            out.append(":");
            out.append(p);
        },
        None => {},
    }
    out
}

} // verus!
