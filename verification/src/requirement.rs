//! The requirements a hash strategy is built from: named requirements with
//! a version source, or unnamed direct-URL requirements, each with an
//! optional environment marker.
use vstd::prelude::*;

use crate::package_id::{spec_canonical_url, PackageName, PidV};
use crate::pep508::marker_applies;

verus! {

/// The comparison operator of one version specifier.
#[derive(Debug, Eq, PartialEq, Clone, Copy, Structural)]
pub enum Operator {
    Equal,
    EqualStar,
    ExactEqual,
    NotEqual,
    NotEqualStar,
    TildeEqual,
    LessThan,
    LessThanEqual,
    GreaterThan,
    GreaterThanEqual,
}

impl Operator {
    /// The operator's written form. The star operators render as their
    /// base operator; the star lives in the version text.
    pub open spec fn spec_str(self) -> Seq<char> {
        match self {
            Operator::Equal => "=="@,
            Operator::EqualStar => "=="@,
            Operator::ExactEqual => "==="@,
            Operator::NotEqual => "!="@,
            Operator::NotEqualStar => "!="@,
            Operator::TildeEqual => "~="@,
            Operator::LessThan => "<"@,
            Operator::LessThanEqual => "<="@,
            Operator::GreaterThan => ">"@,
            Operator::GreaterThanEqual => ">="@,
        }
    }

    pub fn as_str(&self) -> (r: &'static str)
        ensures
            r@ == self.spec_str(),
    {
        match self {
            Operator::Equal => "==",
            Operator::EqualStar => "==",
            Operator::ExactEqual => "===",
            Operator::NotEqual => "!=",
            Operator::NotEqualStar => "!=",
            Operator::TildeEqual => "~=",
            Operator::LessThan => "<",
            Operator::LessThanEqual => "<=",
            Operator::GreaterThan => ">",
            Operator::GreaterThanEqual => ">=",
        }
    }
}

/// One version specifier: an operator and the version text it compares to.
#[derive(Debug, Eq, PartialEq, Clone)]
pub struct VersionSpecifier {
    pub operator: Operator,
    pub version: String,
}

/// Mathematical model of a [`VersionSpecifier`].
pub struct VersionSpecifierV {
    pub operator: Operator,
    pub version: Seq<char>,
}

impl View for VersionSpecifier {
    type V = VersionSpecifierV;

    open spec fn view(&self) -> VersionSpecifierV {
        VersionSpecifierV { operator: self.operator, version: self.version@ }
    }
}

impl DeepView for VersionSpecifier {
    type V = VersionSpecifierV;

    open spec fn deep_view(&self) -> VersionSpecifierV {
        self.view()
    }
}

/// Where a named requirement's artifact comes from: a registry with
/// version specifiers, or a direct URL (plain, git or local path).
#[derive(Debug, Clone)]
pub enum RequirementSource {
    Registry { specifiers: Vec<VersionSpecifier> },
    Url { url: String },
    Git { url: String },
    Path { url: String },
}

/// Mathematical model of a [`RequirementSource`].
pub enum SourceV {
    Registry(Seq<VersionSpecifierV>),
    Url(Seq<char>),
    Git(Seq<char>),
    Path(Seq<char>),
}

impl View for RequirementSource {
    type V = SourceV;

    open spec fn view(&self) -> SourceV {
        match self {
            RequirementSource::Registry { specifiers } => SourceV::Registry(specifiers.deep_view()),
            RequirementSource::Url { url } => SourceV::Url(url@),
            RequirementSource::Git { url } => SourceV::Git(url@),
            RequirementSource::Path { url } => SourceV::Path(url@),
        }
    }
}

/// A named requirement: a package name, a source, and an optional
/// environment marker. The marker tree itself is opaque; only its
/// presence is modelled.
#[derive(Debug, Clone)]
pub struct Requirement {
    pub name: PackageName,
    pub source: RequirementSource,
    pub marker: Option<pep508_rs::MarkerTree>,
}

/// Mathematical model of a [`Requirement`].
pub struct RequirementV {
    pub name: Seq<char>,
    pub source: SourceV,
    pub has_marker: bool,
}

impl View for Requirement {
    type V = RequirementV;

    open spec fn view(&self) -> RequirementV {
        RequirementV {
            name: self.name@,
            source: self.source@,
            has_marker: self.marker is Some,
        }
    }
}

/// An unnamed requirement: a verbatim direct URL with an optional marker.
#[derive(Debug, Clone)]
pub struct UnnamedRequirement {
    pub url: String,
    pub marker: Option<pep508_rs::MarkerTree>,
}

/// Mathematical model of an [`UnnamedRequirement`].
pub struct UnnamedV {
    pub url: Seq<char>,
    pub has_marker: bool,
}

impl View for UnnamedRequirement {
    type V = UnnamedV;

    open spec fn view(&self) -> UnnamedV {
        UnnamedV { url: self.url@, has_marker: self.marker is Some }
    }
}

/// A requirement that still awaits resolution: named, or a bare URL.
#[derive(Debug, Clone)]
pub enum UnresolvedRequirement {
    Named(Requirement),
    Unnamed(UnnamedRequirement),
}

/// Mathematical model of an [`UnresolvedRequirement`].
pub enum UreqV {
    Named(RequirementV),
    Unnamed(UnnamedV),
}

impl View for UnresolvedRequirement {
    type V = UreqV;

    open spec fn view(&self) -> UreqV {
        match self {
            UnresolvedRequirement::Named(r) => UreqV::Named(r@),
            UnresolvedRequirement::Unnamed(r) => UreqV::Unnamed(r@),
        }
    }
}

/// Whether the requirement carries an environment marker.
pub open spec fn spec_has_marker(u: UreqV) -> bool {
    match u {
        UreqV::Named(r) => r.has_marker,
        UreqV::Unnamed(r) => r.has_marker,
    }
}

impl UnresolvedRequirement {
    /// Whether the requirement applies under the given environment. A
    /// requirement without a marker always applies; with one, the marker
    /// crate decides and nothing is assumed of its verdict.
    pub fn evaluate_markers(&self, env: Option<&pep508_rs::MarkerEnvironment>) -> (r: bool)
        ensures
            !spec_has_marker(self@) ==> r,
    {
        let marker = match self {
            UnresolvedRequirement::Named(req) => &req.marker,
            UnresolvedRequirement::Unnamed(req) => &req.marker,
        };
        match marker {
            Some(tree) => marker_applies(tree, env),
            None => true,
        }
    }
}

/// The identity a named requirement pins, if it pins one: a registry
/// requirement pins its name exactly when it carries one specifier with
/// the equality operator; a URL, git or path requirement always pins its
/// canonical URL.
pub open spec fn spec_pin(r: RequirementV) -> Option<PidV> {
    match r.source {
        SourceV::Registry(specs) => if specs.len() == 1 && specs[0].operator == Operator::Equal {
            Some(PidV::Registry(r.name))
        } else {
            None
        },
        SourceV::Url(u) => Some(PidV::Url(spec_canonical_url(u))),
        SourceV::Git(u) => Some(PidV::Url(spec_canonical_url(u))),
        SourceV::Path(u) => Some(PidV::Url(spec_canonical_url(u))),
    }
}

/// The written form of a specifier list: the specifiers joined by commas,
/// each its operator followed by its version text.
pub open spec fn spec_render_specs(specs: Seq<VersionSpecifierV>) -> Seq<char>
    decreases specs.len(),
{
    if specs.len() == 0 {
        Seq::empty()
    } else if specs.len() == 1 {
        specs[0].operator.spec_str() + specs[0].version
    } else {
        specs[0].operator.spec_str() + specs[0].version + seq![','] + spec_render_specs(
            specs.skip(1),
        )
    }
}

/// The written form of a requirement, used in error reports: the name
/// followed by its specifiers, or `name @ url` for direct URLs, or the
/// bare URL for an unnamed requirement.
pub open spec fn spec_display_ureq(u: UreqV) -> Seq<char> {
    match u {
        UreqV::Named(r) => match r.source {
            SourceV::Registry(specs) => r.name + spec_render_specs(specs),
            SourceV::Url(url) => r.name + " @ "@ + url,
            SourceV::Git(url) => r.name + " @ "@ + url,
            SourceV::Path(url) => r.name + " @ "@ + url,
        },
        UreqV::Unnamed(r) => r.url,
    }
}

impl UnresolvedRequirement {
    /// Renders the requirement for an error report.
    pub fn to_display_string(&self) -> (r: String)
        ensures
            r@ == spec_display_ureq(self@),
    {
        match self {
            UnresolvedRequirement::Unnamed(req) => {
                let mut out = String::new();
                out.append(req.url.as_str());
                proof {
                    assert(out@ =~= req.url@);
                }
                out
            },
            UnresolvedRequirement::Named(req) => {
                let mut out = String::new();
                out.append(req.name.as_str());
                match &req.source {
                    RequirementSource::Registry { specifiers } => {
                        let ghost all = specifiers.deep_view();
                        let ghost base = out@;
                        let n = specifiers.len();
                        let mut i: usize = 0;
                        while i < n
                            invariant
                                0 <= i <= n,
                                n == specifiers@.len(),
                                all == specifiers.deep_view(),
                                i == 0 ==> out@ == base,
                                i > 0 ==> out@ == base + spec_render_specs(all.take(i as int)),
                        decreases n - i,
                        {
                            proof {
                                reveal_strlit(",");
                                assert(","@ =~= seq![',']);
                                assert(all[i as int] == specifiers@[i as int]@);
                            }
                            if i > 0 {
                                out.append(",");
                            }
                            out.append(specifiers[i].operator.as_str());
                            out.append(specifiers[i].version.as_str());
                            proof {
                                if i == 0 {
                                    assert(all.take(1).len() == 1);
                                    assert(all.take(1)[0] == all[0]);
                                    assert(out@ =~= base + spec_render_specs(all.take(1)));
                                } else {
                                    lemma_render_specs_push(all.take(i as int), all[i as int]);
                                    assert(all.take(i as int).push(all[i as int]) =~= all.take(
                                        i + 1,
                                    ));
                                    assert(out@ =~= base + spec_render_specs(all.take(i + 1)));
                                }
                            }
                            i = i + 1;
                        }
                        proof {
                            if n > 0 {
                                assert(all.take(n as int) =~= all);
                            } else {
                                assert(spec_render_specs(all) == Seq::<char>::empty());
                                assert(out@ =~= base + spec_render_specs(all));
                            }
                        }
                        out
                    },
                    RequirementSource::Url { url } => {
                        out.append(" @ ");
                        out.append(url.as_str());
                        out
                    },
                    RequirementSource::Git { url } => {
                        out.append(" @ ");
                        out.append(url.as_str());
                        out
                    },
                    RequirementSource::Path { url } => {
                        out.append(" @ ");
                        out.append(url.as_str());
                        out
                    },
                }
            },
        }
    }
}

proof fn lemma_render_specs_push(s: Seq<VersionSpecifierV>, x: VersionSpecifierV)
    requires
        s.len() >= 1,
    ensures
        spec_render_specs(s.push(x)) == spec_render_specs(s) + seq![','] + x.operator.spec_str()
            + x.version,
    decreases s.len(),
{
    if s.len() == 1 {
        assert(s.push(x).len() == 2);
        assert(s.push(x)[0] == s[0]);
        assert(s.push(x).skip(1) =~= seq![x]);
        assert(spec_render_specs(seq![x]) == x.operator.spec_str() + x.version);
        assert(spec_render_specs(s.push(x)) == s[0].operator.spec_str() + s[0].version + seq![',']
            + (x.operator.spec_str() + x.version));
        assert(s[0].operator.spec_str() + s[0].version + seq![','] + (x.operator.spec_str()
            + x.version) =~= (s[0].operator.spec_str() + s[0].version) + seq![',']
            + x.operator.spec_str() + x.version);
    } else {
        assert(s.push(x)[0] == s[0]);
        assert(s.push(x).skip(1) =~= s.skip(1).push(x));
        lemma_render_specs_push(s.skip(1), x);
        assert(spec_render_specs(s.push(x)) == s[0].operator.spec_str() + s[0].version + seq![',']
            + spec_render_specs(s.skip(1).push(x)));
        assert(s[0].operator.spec_str() + s[0].version + seq![','] + (spec_render_specs(s.skip(1))
            + seq![','] + x.operator.spec_str() + x.version) =~= (s[0].operator.spec_str()
            + s[0].version + seq![','] + spec_render_specs(s.skip(1))) + seq![',']
            + x.operator.spec_str() + x.version);
    }
}

} // verus!
