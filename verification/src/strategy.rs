//! The hash strategy: the single decision point for which digests, if
//! any, an archive for a logical package must match.
//!
//! A strategy is `None` (no policy), `Generate` (hash, do not validate),
//! `Verify` (validate where digests are known, admit the rest), or
//! `Require` (validate everywhere; a package without known digests is
//! refused). The decision for one distribution is a [`HashPolicy`].
use vstd::prelude::*;

use crate::digest::{
    lemma_digest_round_trip, lemma_parse_digest_wf, spec_digest_wf, spec_parse_digest,
    spec_render_digest, DigestV, HashDigest, HashParseErrV, HashParseError,
};
use crate::package_id::{spec_canonical_url, PackageId, PackageName, PidV};
use crate::requirement::{
    spec_display_ureq, spec_has_marker, spec_pin, Operator, Requirement, RequirementSource,
    UnresolvedRequirement, UreqV,
};

verus! {

/// The digests known for each package identity. Backed by a vector with
/// pairwise-distinct keys; later insertions replace earlier ones.
#[derive(Debug, Clone)]
pub struct DigestMap {
    pub entries: Vec<(PackageId, Vec<HashDigest>)>,
}

/// Some entry carries the key `k`.
pub open spec fn spec_entries_contain(es: Seq<(PackageId, Vec<HashDigest>)>, k: PidV) -> bool {
    exists|i: int| 0 <= i < es.len() && (#[trigger] es[i]).0@ == k
}

/// The index of the entry carrying `k`.
pub open spec fn spec_entry_index(es: Seq<(PackageId, Vec<HashDigest>)>, k: PidV) -> int {
    choose|i: int| 0 <= i < es.len() && (#[trigger] es[i]).0@ == k
}

impl DigestMap {
    /// Keys are pairwise distinct.
    pub open spec fn wf(&self) -> bool {
        forall|i: int, j: int|
            0 <= i < j < self.entries@.len() ==> (#[trigger] self.entries@[i]).0@ != (
            #[trigger] self.entries@[j]).0@
    }
}

impl View for DigestMap {
    type V = Map<PidV, Seq<DigestV>>;

    open spec fn view(&self) -> Map<PidV, Seq<DigestV>> {
        Map::new(
            |k: PidV| spec_entries_contain(self.entries@, k),
            |k: PidV| self.entries@[spec_entry_index(self.entries@, k)].1.deep_view(),
        )
    }
}

/// With distinct keys, the entry carrying `k` is unique.
proof fn lemma_unique_index(es: Seq<(PackageId, Vec<HashDigest>)>, k: PidV)
    requires
        forall|i: int, j: int|
            0 <= i < j < es.len() ==> (#[trigger] es[i]).0@ != (#[trigger] es[j]).0@,
        spec_entries_contain(es, k),
    ensures
        0 <= spec_entry_index(es, k) < es.len(),
        es[spec_entry_index(es, k)].0@ == k,
        forall|i: int| 0 <= i < es.len() && (#[trigger] es[i]).0@ == k ==> i == spec_entry_index(
            es,
            k,
        ),
{
    let w = choose|i: int| 0 <= i < es.len() && (#[trigger] es[i]).0@ == k;
    assert(es[w].0@ == k);
    assert forall|i: int| 0 <= i < es.len() && (#[trigger] es[i]).0@ == k implies i
        == spec_entry_index(es, k) by {
        if i < spec_entry_index(es, k) {
            assert(es[i].0@ != es[spec_entry_index(es, k)].0@);
        } else if i > spec_entry_index(es, k) {
            assert(es[spec_entry_index(es, k)].0@ != es[i].0@);
        }
    }
}

impl DigestMap {
    /// An empty map.
    pub fn new() -> (r: DigestMap)
        ensures
            r.wf(),
            r@ == Map::<PidV, Seq<DigestV>>::empty(),
    {
        let r = DigestMap { entries: Vec::new() };
        proof {
            assert(r@ =~= Map::<PidV, Seq<DigestV>>::empty());
        }
        r
    }

    /// The position of `key`'s entry, if the map holds one.
    fn index_of(&self, key: &PackageId) -> (r: Option<usize>)
        ensures
            match r {
                Some(i) => i < self.entries@.len() && self.entries@[i as int].0@ == key@,
                None => !spec_entries_contain(self.entries@, key@),
            },
    {
        let n = self.entries.len();
        let mut i: usize = 0;
        while i < n
            invariant
                0 <= i <= n,
                n == self.entries@.len(),
                forall|j: int| 0 <= j < i ==> (#[trigger] self.entries@[j]).0@ != key@,
            decreases n - i,
        {
            if self.entries[i].0.key_eq(key) {
                return Some(i);
            }
            i = i + 1;
        }
        None
    }

    /// The digests known for `key`, if any.
    pub fn get(&self, key: &PackageId) -> (r: Option<&Vec<HashDigest>>)
        requires
            self.wf(),
        ensures
            match r {
                Some(ds) => self@.contains_key(key@) && ds.deep_view() == self@[key@],
                None => !self@.contains_key(key@),
            },
    {
        match self.index_of(key) {
            Some(i) => {
                proof {
                    assert(spec_entries_contain(self.entries@, key@));
                    lemma_unique_index(self.entries@, key@);
                }
                Some(&self.entries[i].1)
            },
            None => None,
        }
    }

    /// Whether the map holds digests for `key`.
    pub fn contains(&self, key: &PackageId) -> (r: bool)
        requires
            self.wf(),
        ensures
            r == self@.contains_key(key@),
    {
        match self.index_of(key) {
            Some(_) => {
                proof {
                    assert(spec_entries_contain(self.entries@, key@));
                }
                true
            },
            None => false,
        }
    }

    /// Binds `key` to `digests`, replacing what an earlier entry held.
    pub fn insert(&mut self, key: PackageId, digests: Vec<HashDigest>)
        requires
            old(self).wf(),
        ensures
            final(self).wf(),
            final(self)@ == old(self)@.insert(key@, digests.deep_view()),
    {
        let ghost old_es = self.entries@;
        let ghost kv = key@;
        let ghost dv = digests.deep_view();
        let found = self.index_of(&key);
        match found {
            Some(i) => {
                self.entries.set(i, (key, digests));
                proof {
                    let es = self.entries@;
                    assert forall|a: int, b: int| 0 <= a < b < es.len() implies (
                    #[trigger] es[a]).0@ != (#[trigger] es[b]).0@ by {
                        assert(old_es[a].0@ != old_es[b].0@);
                        if a == i {
                            assert(es[a].0@ == old_es[i as int].0@);
                        } else if b == i {
                            assert(es[b].0@ == old_es[i as int].0@);
                        }
                    }
                    lemma_insert_view_replace(old_es, es, i as int, kv, dv);
                }
            },
            None => {
                self.entries.push((key, digests));
                proof {
                    let es = self.entries@;
                    assert forall|a: int, b: int| 0 <= a < b < es.len() implies (
                    #[trigger] es[a]).0@ != (#[trigger] es[b]).0@ by {
                        if b < old_es.len() {
                            assert(old_es[a].0@ != old_es[b].0@);
                        } else {
                            assert(es[b].0@ == kv);
                            assert(es[a].0@ == old_es[a].0@);
                            assert(!spec_entries_contain(old_es, kv));
                        }
                    }
                    lemma_insert_view_push(old_es, es, kv, dv);
                }
            },
        }
    }
}

/// Replacing the entry that carried `k` updates the map view at `k` alone.
proof fn lemma_insert_view_replace(
    old_es: Seq<(PackageId, Vec<HashDigest>)>,
    es: Seq<(PackageId, Vec<HashDigest>)>,
    i: int,
    k: PidV,
    dv: Seq<DigestV>,
)
    requires
        forall|a: int, b: int|
            0 <= a < b < old_es.len() ==> (#[trigger] old_es[a]).0@ != (#[trigger] old_es[b]).0@,
        forall|a: int, b: int|
            0 <= a < b < es.len() ==> (#[trigger] es[a]).0@ != (#[trigger] es[b]).0@,
        0 <= i < old_es.len(),
        old_es[i].0@ == k,
        es.len() == old_es.len(),
        es[i].0@ == k,
        es[i].1.deep_view() == dv,
        forall|j: int| 0 <= j < es.len() && j != i ==> es[j] == old_es[j],
    ensures
        Map::new(
            |k2: PidV| spec_entries_contain(es, k2),
            |k2: PidV| es[spec_entry_index(es, k2)].1.deep_view(),
        ) == Map::new(
            |k2: PidV| spec_entries_contain(old_es, k2),
            |k2: PidV| old_es[spec_entry_index(old_es, k2)].1.deep_view(),
        ).insert(k, dv),
{
    let m1 = Map::new(
        |k2: PidV| spec_entries_contain(es, k2),
        |k2: PidV| es[spec_entry_index(es, k2)].1.deep_view(),
    );
    let m0 = Map::new(
        |k2: PidV| spec_entries_contain(old_es, k2),
        |k2: PidV| old_es[spec_entry_index(old_es, k2)].1.deep_view(),
    ).insert(k, dv);
    assert forall|k2: PidV| m1.dom().contains(k2) implies m0.dom().contains(k2) by {
        let w = spec_entry_index(es, k2);
        lemma_unique_index(es, k2);
        if w != i {
            assert(old_es[w].0@ == k2);
        }
    }
    assert forall|k2: PidV| m0.dom().contains(k2) implies m1.dom().contains(k2) by {
        if k2 == k {
            assert(es[i].0@ == k2);
        } else {
            let w = spec_entry_index(old_es, k2);
            lemma_unique_index(old_es, k2);
            assert(w != i);
            assert(es[w].0@ == k2);
        }
    }
    assert forall|k2: PidV| m1.dom().contains(k2) implies m1[k2] == m0[k2] by {
        lemma_unique_index(es, k2);
        let w = spec_entry_index(es, k2);
        if k2 == k {
            assert(w == i);
        } else {
            assert(w != i);
            assert(old_es[w].0@ == k2);
            lemma_unique_index(old_es, k2);
            assert(spec_entry_index(old_es, k2) == w);
        }
    }
    assert(m1 =~= m0);
}

/// Appending an entry with a fresh key extends the map view at that key.
proof fn lemma_insert_view_push(
    old_es: Seq<(PackageId, Vec<HashDigest>)>,
    es: Seq<(PackageId, Vec<HashDigest>)>,
    k: PidV,
    dv: Seq<DigestV>,
)
    requires
        forall|a: int, b: int|
            0 <= a < b < old_es.len() ==> (#[trigger] old_es[a]).0@ != (#[trigger] old_es[b]).0@,
        forall|a: int, b: int|
            0 <= a < b < es.len() ==> (#[trigger] es[a]).0@ != (#[trigger] es[b]).0@,
        !spec_entries_contain(old_es, k),
        es.len() == old_es.len() + 1,
        es[es.len() - 1].0@ == k,
        es[es.len() - 1].1.deep_view() == dv,
        forall|j: int| 0 <= j < old_es.len() ==> es[j] == old_es[j],
    ensures
        Map::new(
            |k2: PidV| spec_entries_contain(es, k2),
            |k2: PidV| es[spec_entry_index(es, k2)].1.deep_view(),
        ) == Map::new(
            |k2: PidV| spec_entries_contain(old_es, k2),
            |k2: PidV| old_es[spec_entry_index(old_es, k2)].1.deep_view(),
        ).insert(k, dv),
{
    let last = es.len() - 1;
    let m1 = Map::new(
        |k2: PidV| spec_entries_contain(es, k2),
        |k2: PidV| es[spec_entry_index(es, k2)].1.deep_view(),
    );
    let m0 = Map::new(
        |k2: PidV| spec_entries_contain(old_es, k2),
        |k2: PidV| old_es[spec_entry_index(old_es, k2)].1.deep_view(),
    ).insert(k, dv);
    assert forall|k2: PidV| m1.dom().contains(k2) implies m0.dom().contains(k2) by {
        let w = spec_entry_index(es, k2);
        lemma_unique_index(es, k2);
        if w != last {
            assert(old_es[w].0@ == k2);
        }
    }
    assert forall|k2: PidV| m0.dom().contains(k2) implies m1.dom().contains(k2) by {
        if k2 == k {
            assert(es[last].0@ == k2);
        } else {
            let w = spec_entry_index(old_es, k2);
            lemma_unique_index(old_es, k2);
            assert(es[w].0@ == k2);
        }
    }
    assert forall|k2: PidV| m1.dom().contains(k2) implies m1[k2] == m0[k2] by {
        lemma_unique_index(es, k2);
        let w = spec_entry_index(es, k2);
        if k2 == k {
            assert(w == last);
        } else {
            assert(w != last);
            assert(old_es[w].0@ == k2);
            lemma_unique_index(old_es, k2);
            assert(spec_entry_index(old_es, k2) == w);
        }
    }
    assert(m1 =~= m0);
}

/// The per-distribution decision the fetcher enforces.
#[derive(Debug, Eq, PartialEq, Clone)]
pub enum HashPolicy {
    /// No hash policy: anything is accepted.
    Off,
    /// Compute a digest for the archive, but validate nothing.
    Generate,
    /// Accept the archive only if one of these digests matches; with an
    /// empty list, nothing can pass.
    Validate(Vec<HashDigest>),
}

/// Mathematical model of a [`HashPolicy`].
pub enum PolicyV {
    Off,
    Generate,
    Validate(Seq<DigestV>),
}

impl View for HashPolicy {
    type V = PolicyV;

    open spec fn view(&self) -> PolicyV {
        match self {
            HashPolicy::Off => PolicyV::Off,
            HashPolicy::Generate => PolicyV::Generate,
            HashPolicy::Validate(ds) => PolicyV::Validate(ds.deep_view()),
        }
    }
}

/// The strategy: how digests are handled across the whole resolution.
#[derive(Debug, Clone)]
pub enum HashStrategy {
    /// No hash policy is specified.
    Off,
    /// Hashes should be generated, but not validated.
    Generate,
    /// Hashes are validated when the package has known digests, and
    /// ignored otherwise.
    Verify(DigestMap),
    /// Hashes are validated against a pre-defined list; a package without
    /// an entry is refused.
    Require(DigestMap),
}

/// Mathematical model of a [`HashStrategy`].
pub enum StrategyV {
    Off,
    Generate,
    Verify(Map<PidV, Seq<DigestV>>),
    Require(Map<PidV, Seq<DigestV>>),
}

impl View for HashStrategy {
    type V = StrategyV;

    open spec fn view(&self) -> StrategyV {
        match self {
            HashStrategy::Off => StrategyV::Off,
            HashStrategy::Generate => StrategyV::Generate,
            HashStrategy::Verify(m) => StrategyV::Verify(m@),
            HashStrategy::Require(m) => StrategyV::Require(m@),
        }
    }
}

/// The policy a strategy decides for one package identity: `Verify` looks
/// the identity up and admits absentees; `Require` hands an absentee an
/// empty validation list, which rejects every archive.
pub open spec fn spec_policy(s: StrategyV, id: PidV) -> PolicyV {
    match s {
        StrategyV::Off => PolicyV::Off,
        StrategyV::Generate => PolicyV::Generate,
        StrategyV::Verify(m) => if m.contains_key(id) {
            PolicyV::Validate(m[id])
        } else {
            PolicyV::Off
        },
        StrategyV::Require(m) => PolicyV::Validate(
            if m.contains_key(id) {
                m[id]
            } else {
                Seq::empty()
            },
        ),
    }
}

/// Whether a strategy admits the identity at all: only `Require` denies,
/// and only for identities absent from its map.
pub open spec fn spec_allows(s: StrategyV, id: PidV) -> bool {
    match s {
        StrategyV::Require(m) => m.contains_key(id),
        _ => true,
    }
}

/// Anything that knows the canonical identity of its logical artifact.
pub trait DistributionMetadata {
    /// The identity, at the specification level.
    spec fn package_id_spec(&self) -> PidV;

    /// The identity of this distribution's artifact.
    fn package_id(&self) -> (r: PackageId)
        ensures
            r@ == self.package_id_spec(),
    ;
}

impl DistributionMetadata for PackageId {
    open spec fn package_id_spec(&self) -> PidV {
        self@
    }

    fn package_id(&self) -> (r: PackageId)
        ensures
            r@ == self.package_id_spec(),
    {
        match self {
            PackageId::Registry(n) => PackageId::Registry(
                PackageName { name: n.name.clone() },
            ),
            PackageId::Url(u) => PackageId::Url(u.clone()),
        }
    }
}

/// Copies a digest list, field by field.
fn clone_digests(ds: &Vec<HashDigest>) -> (r: Vec<HashDigest>)
    ensures
        r.deep_view() == ds.deep_view(),
{
    let mut out: Vec<HashDigest> = Vec::new();
    let n = ds.len();
    let mut i: usize = 0;
    while i < n
        invariant
            0 <= i <= n,
            n == ds@.len(),
            out@.len() == i,
            forall|j: int| 0 <= j < i ==> out@[j].deep_view() == ds@[j].deep_view(),
        decreases n - i,
    {
        let d = HashDigest { algorithm: ds[i].algorithm, digest: ds[i].digest.clone() };
        out.push(d);
        i = i + 1;
    }
    proof {
        assert forall|j: int| 0 <= j < n implies out.deep_view()[j] == ds.deep_view()[j] by {
            assert(out@[j].deep_view() == ds@[j].deep_view());
        }
        assert(out.deep_view() =~= ds.deep_view());
    }
    out
}

impl HashStrategy {
    /// The maps inside the strategy keep their keys distinct.
    pub open spec fn wf(&self) -> bool {
        match self {
            HashStrategy::Verify(m) => m.wf(),
            HashStrategy::Require(m) => m.wf(),
            _ => true,
        }
    }

    /// The policy for one identity, per the decision table.
    fn policy_for(&self, id: &PackageId) -> (r: HashPolicy)
        requires
            self.wf(),
        ensures
            r@ == spec_policy(self@, id@),
    {
        match self {
            HashStrategy::Off => HashPolicy::Off,
            HashStrategy::Generate => HashPolicy::Generate,
            HashStrategy::Verify(m) => match m.get(id) {
                Some(ds) => HashPolicy::Validate(clone_digests(ds)),
                None => HashPolicy::Off,
            },
            HashStrategy::Require(m) => match m.get(id) {
                Some(ds) => HashPolicy::Validate(clone_digests(ds)),
                None => {
                    let empty: Vec<HashDigest> = Vec::new();
                    proof {
                        assert(empty.deep_view() =~= Seq::<DigestV>::empty());
                    }
                    HashPolicy::Validate(empty)
                },
            },
        }
    }

    /// The hash policy for the given distribution.
    pub fn get<T: DistributionMetadata>(&self, distribution: &T) -> (r: HashPolicy)
        requires
            self.wf(),
        ensures
            r@ == spec_policy(self@, distribution.package_id_spec()),
    {
        let id = distribution.package_id();
        self.policy_for(&id)
    }

    /// The hash policy for a registry package with the given name.
    pub fn get_package(&self, name: &PackageName) -> (r: HashPolicy)
        requires
            self.wf(),
        ensures
            r@ == spec_policy(self@, PidV::Registry(name@)),
    {
        let id = PackageId::from_registry(PackageName { name: name.name.clone() });
        self.policy_for(&id)
    }

    /// The hash policy for a direct-URL package.
    pub fn get_url(&self, url: &str) -> (r: HashPolicy)
        requires
            self.wf(),
        ensures
            r@ == spec_policy(self@, PidV::Url(crate::package_id::spec_canonical_url(url@))),
    {
        let id = PackageId::from_url(url);
        self.policy_for(&id)
    }

    /// Whether a registry package with the given name is admitted.
    pub fn allows_package(&self, name: &PackageName) -> (r: bool)
        requires
            self.wf(),
        ensures
            r == spec_allows(self@, PidV::Registry(name@)),
    {
        match self {
            HashStrategy::Require(m) => {
                let id = PackageId::from_registry(PackageName { name: name.name.clone() });
                m.contains(&id)
            },
            _ => true,
        }
    }

    /// Whether a direct-URL package is admitted.
    pub fn allows_url(&self, url: &str) -> (r: bool)
        requires
            self.wf(),
        ensures
            r == spec_allows(self@, PidV::Url(crate::package_id::spec_canonical_url(url@))),
    {
        match self {
            HashStrategy::Require(m) => {
                let id = PackageId::from_url(url);
                m.contains(&id)
            },
            _ => true,
        }
    }
}

/// The policy for a distribution agrees with the policy for its package:
/// whenever a distribution's identity is the registry identity of a name,
/// `get` and `get_package` decide through the very same function of the
/// strategy and that identity — and likewise for URLs.
pub proof fn lemma_get_agrees(s: StrategyV, id: PidV, key: Seq<char>)
    ensures
        id == PidV::Registry(key) ==> spec_policy(s, id) == spec_policy(s, PidV::Registry(key)),
        id == PidV::Url(key) ==> spec_policy(s, id) == spec_policy(s, PidV::Url(key)),
        id == PidV::Registry(key) ==> spec_allows(s, id) == spec_allows(s, PidV::Registry(key)),
        id == PidV::Url(key) ==> spec_allows(s, id) == spec_allows(s, PidV::Url(key)),
{
}

/// Which construction mode a strategy error names.
#[derive(Debug, Eq, PartialEq, Clone, Copy, Structural)]
pub enum HashCheckingMode {
    Require,
    Verify,
}

/// The flag a checking mode is written as.
pub open spec fn spec_mode_str(m: HashCheckingMode) -> Seq<char> {
    match m {
        HashCheckingMode::Require => "--require-hashes"@,
        HashCheckingMode::Verify => "--verify-hashes"@,
    }
}

impl HashCheckingMode {
    /// The flag the mode is written as in error reports.
    pub fn to_display_string(&self) -> (r: &'static str)
        ensures
            r@ == spec_mode_str(*self),
    {
        match self {
            HashCheckingMode::Require => "--require-hashes",
            HashCheckingMode::Verify => "--verify-hashes",
        }
    }
}

/// Why a strategy could not be built.
#[derive(Debug, Clone)]
pub enum HashStrategyError {
    /// A digest string did not parse.
    Hash(HashParseError),
    /// A named requirement was not pinned to a single `==` version.
    UnpinnedRequirement(String, HashCheckingMode),
    /// A requirement carried no digest in a mode that demands one.
    MissingHashes(String, HashCheckingMode),
}

/// Mathematical model of a [`HashStrategyError`].
pub enum HsErrV {
    Hash(HashParseErrV),
    UnpinnedRequirement(Seq<char>, HashCheckingMode),
    MissingHashes(Seq<char>, HashCheckingMode),
}

impl View for HashStrategyError {
    type V = HsErrV;

    open spec fn view(&self) -> HsErrV {
        match self {
            HashStrategyError::Hash(e) => HsErrV::Hash(e@),
            HashStrategyError::UnpinnedRequirement(s, m) => HsErrV::UnpinnedRequirement(s@, *m),
            HashStrategyError::MissingHashes(s, m) => HsErrV::MissingHashes(s@, *m),
        }
    }
}

/// The identity a requirement contributes: what a named requirement pins,
/// or the canonical URL of an unnamed one.
pub open spec fn spec_ureq_id(u: UreqV) -> Option<PidV> {
    match u {
        UreqV::Named(r) => spec_pin(r),
        UreqV::Unnamed(r) => Some(PidV::Url(spec_canonical_url(r.url))),
    }
}

/// The digests denoted by the first `i` strings, parsed left to right;
/// the first string that fails to parse fails the whole list.
pub open spec fn spec_parse_digests_upto(ds: Seq<Seq<char>>, i: int) -> Result<
    Seq<DigestV>,
    HashParseErrV,
>
    decreases i,
{
    if i <= 0 {
        Ok(Seq::empty())
    } else {
        match spec_parse_digests_upto(ds, i - 1) {
            Err(e) => Err(e),
            Ok(acc) => match spec_parse_digest(ds[i - 1]) {
                Err(e) => Err(e),
                Ok(d) => Ok(acc.push(d)),
            },
        }
    }
}

/// The digests denoted by a list of digest strings.
pub open spec fn spec_parse_digests(ds: Seq<Seq<char>>) -> Result<Seq<DigestV>, HashParseErrV> {
    spec_parse_digests_upto(ds, ds.len() as int)
}

proof fn lemma_parse_digests_err(ds: Seq<Seq<char>>, i: int, j: int)
    requires
        0 <= i <= j,
        spec_parse_digests_upto(ds, i) is Err,
    ensures
        spec_parse_digests_upto(ds, j) == spec_parse_digests_upto(ds, i),
    decreases j - i,
{
    if i < j {
        lemma_parse_digests_err(ds, i, j - 1);
    }
}

/// A parsed digest list is as long as its sources, and each digest is
/// well-formed.
pub proof fn lemma_parse_digests_ok(ds: Seq<Seq<char>>, i: int)
    requires
        0 <= i,
        spec_parse_digests_upto(ds, i) is Ok,
    ensures
        spec_parse_digests_upto(ds, i)->Ok_0.len() == i,
    decreases i,
{
    if i > 0 {
        lemma_parse_digests_ok(ds, i - 1);
    }
}

/// Pushing onto a digest vector appends the digest's model to the
/// vector's deep view.
proof fn lemma_digests_deep_view_push(pre: Vec<HashDigest>, post: Vec<HashDigest>)
    requires
        post@.len() == pre@.len() + 1,
        forall|i: int| 0 <= i < pre@.len() ==> post@[i] == pre@[i],
    ensures
        post.deep_view() =~= pre.deep_view().push(post@[post@.len() - 1]@),
{
    assert forall|t: int| 0 <= t < post@.len() implies post.deep_view()[t] == pre.deep_view().push(
        post@[post@.len() - 1]@,
    )[t] by {
        if t < pre@.len() {
            assert(post@[t] == pre@[t]);
        }
    }
}

/// Parses a list of digest strings; the first failure fails the list.
fn parse_digest_list(ds: &Vec<String>) -> (r: Result<Vec<HashDigest>, HashParseError>)
    ensures
        match r {
            Ok(out) => spec_parse_digests(ds.deep_view()) == Ok::<Seq<DigestV>, HashParseErrV>(
                out.deep_view(),
            ),
            Err(e) => spec_parse_digests(ds.deep_view()) == Err::<Seq<DigestV>, HashParseErrV>(
                e@,
            ),
        },
{
    let ghost dv = ds.deep_view();
    let mut out: Vec<HashDigest> = Vec::new();
    let n = ds.len();
    let mut i: usize = 0;
    proof {
        assert(out.deep_view() =~= Seq::<DigestV>::empty());
    }
    while i < n
        invariant
            0 <= i <= n,
            n == ds@.len(),
            dv == ds.deep_view(),
            dv.len() == n,
            spec_parse_digests_upto(dv, i as int) == Ok::<Seq<DigestV>, HashParseErrV>(
                out.deep_view(),
            ),
        decreases n - i,
    {
        proof {
            assert(dv[i as int] == ds@[i as int]@);
        }
        match HashDigest::from_str(ds[i].as_str()) {
            Ok(d) => {
                let ghost pre = out;
                out.push(d);
                proof {
                    lemma_digests_deep_view_push(pre, out);
                }
            },
            Err(e) => {
                proof {
                    lemma_parse_digests_err(dv, i + 1, dv.len() as int);
                }
                return Err(e);
            },
        }
        i = i + 1;
    }
    Ok(out)
}


/// Which entries of a requirements set were kept: an entry with no marker
/// is always kept; an entry with one goes by the marker's verdict, of
/// which nothing is assumed.
pub open spec fn spec_mask_ok(
    es: Seq<(UnresolvedRequirement, Vec<String>)>,
    mask: Seq<bool>,
) -> bool {
    &&& mask.len() == es.len()
    &&& forall|i: int|
        0 <= i < es.len() && !spec_has_marker((#[trigger] es[i]).0@) ==> mask[i]
}

/// The map `require` builds from the first `i` entries under a given skip
/// mask. Each kept requirement must pin an identity and carry at least
/// one digest, every digest must parse, and later entries replace
/// earlier ones with the same identity.
pub open spec fn spec_require_upto(
    es: Seq<(UnresolvedRequirement, Vec<String>)>,
    mask: Seq<bool>,
    i: int,
) -> Result<Map<PidV, Seq<DigestV>>, HsErrV>
    decreases i,
{
    if i <= 0 {
        Ok(Map::empty())
    } else {
        match spec_require_upto(es, mask, i - 1) {
            Err(e) => Err(e),
            Ok(acc) => {
                if !mask[i - 1] {
                    Ok(acc)
                } else {
                    let u = es[i - 1].0@;
                    let digs = es[i - 1].1.deep_view();
                    match spec_ureq_id(u) {
                        None => Err(
                            HsErrV::UnpinnedRequirement(
                                spec_display_ureq(u),
                                HashCheckingMode::Require,
                            ),
                        ),
                        Some(id) => if digs.len() == 0 {
                            Err(
                                HsErrV::MissingHashes(
                                    spec_display_ureq(u),
                                    HashCheckingMode::Require,
                                ),
                            )
                        } else {
                            match spec_parse_digests(digs) {
                                Err(e) => Err(HsErrV::Hash(e)),
                                Ok(ds) => Ok(acc.insert(id, ds)),
                            }
                        },
                    }
                }
            },
        }
    }
}

/// The map `verify` builds from the first `i` entries under a given skip
/// mask. An entry without digests is skipped; digests are parsed first,
/// and then the requirement must pin an identity.
pub open spec fn spec_verify_upto(
    es: Seq<(UnresolvedRequirement, Vec<String>)>,
    mask: Seq<bool>,
    i: int,
) -> Result<Map<PidV, Seq<DigestV>>, HsErrV>
    decreases i,
{
    if i <= 0 {
        Ok(Map::empty())
    } else {
        match spec_verify_upto(es, mask, i - 1) {
            Err(e) => Err(e),
            Ok(acc) => {
                if !mask[i - 1] {
                    Ok(acc)
                } else {
                    let u = es[i - 1].0@;
                    let digs = es[i - 1].1.deep_view();
                    if digs.len() == 0 {
                        Ok(acc)
                    } else {
                        match spec_parse_digests(digs) {
                            Err(e) => Err(HsErrV::Hash(e)),
                            Ok(ds) => match spec_ureq_id(u) {
                                None => Err(
                                    HsErrV::UnpinnedRequirement(
                                        spec_display_ureq(u),
                                        HashCheckingMode::Verify,
                                    ),
                                ),
                                Some(id) => Ok(acc.insert(id, ds)),
                            },
                        }
                    }
                }
            },
        }
    }
}

proof fn lemma_require_upto_frame(
    es: Seq<(UnresolvedRequirement, Vec<String>)>,
    m1: Seq<bool>,
    m2: Seq<bool>,
    i: int,
)
    requires
        forall|j: int| 0 <= j < i ==> m1[j] == m2[j],
    ensures
        spec_require_upto(es, m1, i) == spec_require_upto(es, m2, i),
    decreases i,
{
    if i > 0 {
        lemma_require_upto_frame(es, m1, m2, i - 1);
    }
}

proof fn lemma_verify_upto_frame(
    es: Seq<(UnresolvedRequirement, Vec<String>)>,
    m1: Seq<bool>,
    m2: Seq<bool>,
    i: int,
)
    requires
        forall|j: int| 0 <= j < i ==> m1[j] == m2[j],
    ensures
        spec_verify_upto(es, m1, i) == spec_verify_upto(es, m2, i),
    decreases i,
{
    if i > 0 {
        lemma_verify_upto_frame(es, m1, m2, i - 1);
    }
}

proof fn lemma_require_upto_err(
    es: Seq<(UnresolvedRequirement, Vec<String>)>,
    mask: Seq<bool>,
    i: int,
    j: int,
)
    requires
        0 <= i <= j,
        spec_require_upto(es, mask, i) is Err,
    ensures
        spec_require_upto(es, mask, j) == spec_require_upto(es, mask, i),
    decreases j - i,
{
    if i < j {
        lemma_require_upto_err(es, mask, i, j - 1);
    }
}

proof fn lemma_verify_upto_err(
    es: Seq<(UnresolvedRequirement, Vec<String>)>,
    mask: Seq<bool>,
    i: int,
    j: int,
)
    requires
        0 <= i <= j,
        spec_verify_upto(es, mask, i) is Err,
    ensures
        spec_verify_upto(es, mask, j) == spec_verify_upto(es, mask, i),
    decreases j - i,
{
    if i < j {
        lemma_verify_upto_err(es, mask, i, j - 1);
    }
}

/// What `require` hands back: the `Require` strategy over the map its
/// entries denote, or the first construction error.
pub open spec fn spec_require_result(
    es: Seq<(UnresolvedRequirement, Vec<String>)>,
    mask: Seq<bool>,
    r: Result<HashStrategy, HashStrategyError>,
) -> bool {
    match spec_require_upto(es, mask, es.len() as int) {
        Ok(m) => r matches Ok(s) && s@ == StrategyV::Require(m) && s.wf(),
        Err(e) => r matches Err(e2) && e2@ == e,
    }
}

/// What `verify` hands back.
pub open spec fn spec_verify_result(
    es: Seq<(UnresolvedRequirement, Vec<String>)>,
    mask: Seq<bool>,
    r: Result<HashStrategy, HashStrategyError>,
) -> bool {
    match spec_verify_upto(es, mask, es.len() as int) {
        Ok(m) => r matches Ok(s) && s@ == StrategyV::Verify(m) && s.wf(),
        Err(e) => r matches Err(e2) && e2@ == e,
    }
}

/// The identity a requirement contributes, executable side.
fn ureq_id(req: &UnresolvedRequirement) -> (r: Option<PackageId>)
    ensures
        match r {
            Some(id) => spec_ureq_id(req@) == Some(id@),
            None => spec_ureq_id(req@) is None,
        },
{
    match req {
        UnresolvedRequirement::Named(named) => pin(named),
        UnresolvedRequirement::Unnamed(unnamed) => Some(
            PackageId::from_url(unnamed.url.as_str()),
        ),
    }
}

/// Pins a named requirement to an identity, when the pinning rule allows:
/// exactly one specifier, with the equality operator.
fn pin(requirement: &Requirement) -> (r: Option<PackageId>)
    ensures
        match r {
            Some(id) => spec_pin(requirement@) == Some(id@),
            None => spec_pin(requirement@) is None,
        },
{
    match &requirement.source {
        RequirementSource::Registry { specifiers } => {
            if specifiers.len() == 1 && specifiers[0].operator == Operator::Equal {
                proof {
                    assert(specifiers.deep_view().len() == 1);
                    assert(specifiers.deep_view()[0] == specifiers@[0]@);
                }
                Some(PackageId::from_registry(PackageName { name: requirement.name.name.clone() }))
            } else {
                proof {
                    if specifiers@.len() == 1 {
                        assert(specifiers.deep_view()[0] == specifiers@[0]@);
                    }
                }
                None
            }
        },
        RequirementSource::Url { url } => Some(PackageId::from_url(url.as_str())),
        RequirementSource::Git { url } => Some(PackageId::from_url(url.as_str())),
        RequirementSource::Path { url } => Some(PackageId::from_url(url.as_str())),
    }
}

impl HashStrategy {
    /// Builds the `Require` strategy from requirements and their digest
    /// strings. Entries whose markers do not apply are skipped; every
    /// other requirement must pin an identity and carry at least one
    /// digest that parses. Later entries replace earlier ones with the
    /// same identity. The contract holds for every admissible skip mask,
    /// and a requirement without a marker is never skipped.
    pub fn require(
        requirements: &Vec<(UnresolvedRequirement, Vec<String>)>,
        markers: Option<&pep508_rs::MarkerEnvironment>,
    ) -> (r: Result<HashStrategy, HashStrategyError>)
        ensures
            exists|mask: Seq<bool>|
                #[trigger] spec_mask_ok(requirements@, mask) && spec_require_result(
                    requirements@,
                    mask,
                    r,
                ),
    {
        let ghost es = requirements@;
        let mut map = DigestMap::new();
        let ghost mut maskv: Seq<bool> = Seq::empty();
        let n = requirements.len();
        let mut i: usize = 0;
        while i < n
            invariant
                0 <= i <= n,
                n == es.len(),
                es == requirements@,
                maskv.len() == i,
                forall|j: int| 0 <= j < i && !spec_has_marker((#[trigger] es[j]).0@) ==> maskv[j],
                map.wf(),
                spec_require_upto(es, maskv, i as int) == Ok::<Map<PidV, Seq<DigestV>>, HsErrV>(
                    map@,
                ),
            decreases n - i,
        {
            let entry = &requirements[i];
            let keep = entry.0.evaluate_markers(markers);
            let ghost pre_mask = maskv;
            proof {
                maskv = maskv.push(keep);
                lemma_require_upto_frame(es, pre_mask, maskv, i as int);
            }
            if keep {
                match ureq_id(&entry.0) {
                    None => {
                        let ghost fail = HsErrV::UnpinnedRequirement(
                            spec_display_ureq(es[i as int].0@),
                            HashCheckingMode::Require,
                        );
                        proof {
                            maskv = maskv + Seq::new((n - i - 1) as nat, |t: int| true);
                            lemma_require_upto_frame(
                                es,
                                pre_mask.push(true),
                                maskv,
                                i as int,
                            );
                            assert(spec_require_upto(es, maskv, i + 1) == Err::<
                                Map<PidV, Seq<DigestV>>,
                                HsErrV,
                            >(fail));
                            lemma_require_upto_err(es, maskv, i + 1, n as int);
                            assert(maskv.len() == n);
                            assert(spec_mask_ok(es, maskv));
                        }
                        return Err(
                            HashStrategyError::UnpinnedRequirement(
                                entry.0.to_display_string(),
                                HashCheckingMode::Require,
                            ),
                        );
                    },
                    Some(id) => {
                        if entry.1.len() == 0 {
                            let ghost fail = HsErrV::MissingHashes(
                                spec_display_ureq(es[i as int].0@),
                                HashCheckingMode::Require,
                            );
                            proof {
                                maskv = maskv + Seq::new((n - i - 1) as nat, |t: int| true);
                                lemma_require_upto_frame(
                                    es,
                                    pre_mask.push(true),
                                    maskv,
                                    i as int,
                                );
                                assert(es[i as int].1.deep_view().len() == 0);
                                assert(spec_require_upto(es, maskv, i + 1) == Err::<
                                    Map<PidV, Seq<DigestV>>,
                                    HsErrV,
                                >(fail));
                                lemma_require_upto_err(es, maskv, i + 1, n as int);
                                assert(maskv.len() == n);
                                assert(spec_mask_ok(es, maskv));
                            }
                            return Err(
                                HashStrategyError::MissingHashes(
                                    entry.0.to_display_string(),
                                    HashCheckingMode::Require,
                                ),
                            );
                        }
                        match parse_digest_list(&entry.1) {
                            Err(e) => {
                                let ghost fail = HsErrV::Hash(e@);
                                proof {
                                    maskv = maskv + Seq::new((n - i - 1) as nat, |t: int| true);
                                    lemma_require_upto_frame(
                                        es,
                                        pre_mask.push(true),
                                        maskv,
                                        i as int,
                                    );
                                    assert(spec_require_upto(es, maskv, i + 1) == Err::<
                                        Map<PidV, Seq<DigestV>>,
                                        HsErrV,
                                    >(fail));
                                    lemma_require_upto_err(es, maskv, i + 1, n as int);
                                    assert(maskv.len() == n);
                                    assert(spec_mask_ok(es, maskv));
                                }
                                return Err(HashStrategyError::Hash(e));
                            },
                            Ok(ds) => {
                                map.insert(id, ds);
                            },
                        }
                    },
                }
            }
            i = i + 1;
        }
        proof {
            assert(spec_mask_ok(es, maskv));
        }
        Ok(HashStrategy::Require(map))
    }

    /// Builds the `Verify` strategy from requirements and their digest
    /// strings. Entries whose markers do not apply, and entries without
    /// digests, are skipped; an entry with digests must pin an identity
    /// and its digests must parse. Later entries replace earlier ones
    /// with the same identity.
    pub fn verify(
        requirements: &Vec<(UnresolvedRequirement, Vec<String>)>,
        markers: Option<&pep508_rs::MarkerEnvironment>,
    ) -> (r: Result<HashStrategy, HashStrategyError>)
        ensures
            exists|mask: Seq<bool>|
                #[trigger] spec_mask_ok(requirements@, mask) && spec_verify_result(
                    requirements@,
                    mask,
                    r,
                ),
    {
        let ghost es = requirements@;
        let mut map = DigestMap::new();
        let ghost mut maskv: Seq<bool> = Seq::empty();
        let n = requirements.len();
        let mut i: usize = 0;
        while i < n
            invariant
                0 <= i <= n,
                n == es.len(),
                es == requirements@,
                maskv.len() == i,
                forall|j: int| 0 <= j < i && !spec_has_marker((#[trigger] es[j]).0@) ==> maskv[j],
                map.wf(),
                spec_verify_upto(es, maskv, i as int) == Ok::<Map<PidV, Seq<DigestV>>, HsErrV>(
                    map@,
                ),
            decreases n - i,
        {
            let entry = &requirements[i];
            let keep = entry.0.evaluate_markers(markers);
            let ghost pre_mask = maskv;
            proof {
                maskv = maskv.push(keep);
                lemma_verify_upto_frame(es, pre_mask, maskv, i as int);
            }
            if keep {
                if entry.1.len() > 0 {
                    proof {
                        assert(es[i as int].1.deep_view().len() > 0);
                    }
                    match parse_digest_list(&entry.1) {
                        Err(e) => {
                            let ghost fail = HsErrV::Hash(e@);
                            proof {
                                maskv = maskv + Seq::new((n - i - 1) as nat, |t: int| true);
                                lemma_verify_upto_frame(
                                    es,
                                    pre_mask.push(true),
                                    maskv,
                                    i as int,
                                );
                                assert(spec_verify_upto(es, maskv, i + 1) == Err::<
                                    Map<PidV, Seq<DigestV>>,
                                    HsErrV,
                                >(fail));
                                lemma_verify_upto_err(es, maskv, i + 1, n as int);
                                assert(maskv.len() == n);
                                assert(spec_mask_ok(es, maskv));
                            }
                            return Err(HashStrategyError::Hash(e));
                        },
                        Ok(ds) => match ureq_id(&entry.0) {
                            None => {
                                let ghost fail = HsErrV::UnpinnedRequirement(
                                    spec_display_ureq(es[i as int].0@),
                                    HashCheckingMode::Verify,
                                );
                                proof {
                                    maskv = maskv + Seq::new((n - i - 1) as nat, |t: int| true);
                                    lemma_verify_upto_frame(
                                        es,
                                        pre_mask.push(true),
                                        maskv,
                                        i as int,
                                    );
                                    assert(spec_verify_upto(es, maskv, i + 1) == Err::<
                                        Map<PidV, Seq<DigestV>>,
                                        HsErrV,
                                    >(fail));
                                    lemma_verify_upto_err(es, maskv, i + 1, n as int);
                                    assert(maskv.len() == n);
                                    assert(spec_mask_ok(es, maskv));
                                }
                                return Err(
                                    HashStrategyError::UnpinnedRequirement(
                                        entry.0.to_display_string(),
                                        HashCheckingMode::Verify,
                                    ),
                                );
                            },
                            Some(id) => {
                                map.insert(id, ds);
                            },
                        },
                    }
                }
            }
            i = i + 1;
        }
        proof {
            assert(spec_mask_ok(es, maskv));
        }
        Ok(HashStrategy::Verify(map))
    }
}

/// Each digest a parsed list holds is well-formed.
proof fn lemma_parse_digests_wf(ds: Seq<Seq<char>>, i: int)
    requires
        0 <= i,
        spec_parse_digests_upto(ds, i) is Ok,
    ensures
        forall|t: int|
            0 <= t < spec_parse_digests_upto(ds, i)->Ok_0.len() ==> spec_digest_wf(
                #[trigger] spec_parse_digests_upto(ds, i)->Ok_0[t],
            ),
    decreases i,
{
    if i > 0 {
        lemma_parse_digests_wf(ds, i - 1);
        lemma_parse_digest_wf(ds[i - 1]);
    }
}

/// Every digest the map stores is canonical: rendering it and parsing the
/// result gives it back unchanged.
pub open spec fn map_digests_canonical(m: Map<PidV, Seq<DigestV>>) -> bool {
    forall|k: PidV, t: int|
        m.contains_key(k) && 0 <= t < m[k].len() ==> spec_parse_digest(
            spec_render_digest(#[trigger] m[k][t]),
        ) == Ok::<DigestV, HashParseErrV>(m[k][t])
}

/// The canonical lowercase form survives `require`: every digest a
/// `require`-built map stores parses back from its own rendering.
pub proof fn lemma_require_digests_canonical(
    es: Seq<(UnresolvedRequirement, Vec<String>)>,
    mask: Seq<bool>,
    i: int,
)
    requires
        0 <= i,
        spec_require_upto(es, mask, i) is Ok,
    ensures
        map_digests_canonical(spec_require_upto(es, mask, i)->Ok_0),
    decreases i,
{
    if i > 0 {
        lemma_require_digests_canonical(es, mask, i - 1);
        let prev = spec_require_upto(es, mask, i - 1)->Ok_0;
        let cur = spec_require_upto(es, mask, i)->Ok_0;
        if mask[i - 1] {
            let digs = es[i - 1].1.deep_view();
            if spec_ureq_id(es[i - 1].0@) is Some && digs.len() > 0 && spec_parse_digests(
                digs,
            ) is Ok {
                let ds = spec_parse_digests(digs)->Ok_0;
                lemma_parse_digests_wf(digs, digs.len() as int);
                assert forall|k: PidV, t: int|
                    cur.contains_key(k) && 0 <= t < cur[k].len() implies spec_parse_digest(
                    spec_render_digest(#[trigger] cur[k][t]),
                ) == Ok::<DigestV, HashParseErrV>(cur[k][t]) by {
                    if k == spec_ureq_id(es[i - 1].0@)->Some_0 {
                        assert(spec_digest_wf(ds[t]));
                        lemma_digest_round_trip(ds[t]);
                    } else {
                        assert(cur[k] == prev[k]);
                    }
                }
            }
        }
    }
}

/// The canonical lowercase form survives `verify` just the same.
pub proof fn lemma_verify_digests_canonical(
    es: Seq<(UnresolvedRequirement, Vec<String>)>,
    mask: Seq<bool>,
    i: int,
)
    requires
        0 <= i,
        spec_verify_upto(es, mask, i) is Ok,
    ensures
        map_digests_canonical(spec_verify_upto(es, mask, i)->Ok_0),
    decreases i,
{
    if i > 0 {
        lemma_verify_digests_canonical(es, mask, i - 1);
        let prev = spec_verify_upto(es, mask, i - 1)->Ok_0;
        let cur = spec_verify_upto(es, mask, i)->Ok_0;
        if mask[i - 1] {
            let digs = es[i - 1].1.deep_view();
            if digs.len() > 0 && spec_parse_digests(digs) is Ok && spec_ureq_id(
                es[i - 1].0@,
            ) is Some {
                let ds = spec_parse_digests(digs)->Ok_0;
                lemma_parse_digests_wf(digs, digs.len() as int);
                assert forall|k: PidV, t: int|
                    cur.contains_key(k) && 0 <= t < cur[k].len() implies spec_parse_digest(
                    spec_render_digest(#[trigger] cur[k][t]),
                ) == Ok::<DigestV, HashParseErrV>(cur[k][t]) by {
                    if k == spec_ureq_id(es[i - 1].0@)->Some_0 {
                        assert(spec_digest_wf(ds[t]));
                        lemma_digest_round_trip(ds[t]);
                    } else {
                        assert(cur[k] == prev[k]);
                    }
                }
            }
        }
    }
}

/// `require` builds a map only if every kept requirement pins an identity
/// and carries at least one digest; and every digest list the map holds
/// is non-empty.
pub proof fn lemma_require_needs_pinned_hashes(
    es: Seq<(UnresolvedRequirement, Vec<String>)>,
    mask: Seq<bool>,
    i: int,
)
    requires
        0 <= i <= es.len(),
        spec_require_upto(es, mask, i) is Ok,
    ensures
        forall|j: int|
            0 <= j < i && mask[j] ==> spec_ureq_id((#[trigger] es[j]).0@) is Some
                && es[j].1.deep_view().len() > 0,
        forall|k: PidV|
            #[trigger] spec_require_upto(es, mask, i)->Ok_0.contains_key(k) ==> spec_require_upto(
                es,
                mask,
                i,
            )->Ok_0[k].len() > 0,
    decreases i,
{
    if i > 0 {
        lemma_require_needs_pinned_hashes(es, mask, i - 1);
        if mask[i - 1] {
            let digs = es[i - 1].1.deep_view();
            if spec_parse_digests(digs) is Ok {
                lemma_parse_digests_ok(digs, digs.len() as int);
            }
        }
    }
}

/// A parse error's stable one-line summary.
pub open spec fn spec_describe_hash_err(e: HashParseErrV) -> Seq<char> {
    match e {
        HashParseErrV::UnsupportedAlgorithm(n) => "Unsupported hash algorithm: "@ + n,
        HashParseErrV::InvalidLength(h) => "Hash digest has the wrong length: "@ + h,
        HashParseErrV::InvalidDigest(h) => "Hash digest holds a character that is no hex digit: "@
            + h,
    }
}

/// A strategy error's stable one-line summary.
pub open spec fn spec_describe_strategy_err(e: HsErrV) -> Seq<char> {
    match e {
        HsErrV::Hash(h) => spec_describe_hash_err(h),
        HsErrV::UnpinnedRequirement(req, m) => "In `"@ + spec_mode_str(m)
            + "` mode, all requirement must have their versions pinned with `==`, but found: "@
            + req,
        HsErrV::MissingHashes(req, m) => "In `"@ + spec_mode_str(m)
            + "` mode, all requirement must have a hash, but none were provided for: "@ + req,
    }
}

impl HashStrategyError {
    /// Renders the error's summary.
    pub fn to_display_string(&self) -> (r: String)
        ensures
            r@ == spec_describe_strategy_err(self@),
    {
        let mut out = String::new();
        match self {
            HashStrategyError::Hash(e) => {
                match e {
                    HashParseError::UnsupportedAlgorithm(n) => {
                        out.append("Unsupported hash algorithm: ");
                        out.append(n.as_str());
                    },
                    HashParseError::InvalidLength(h) => {
                        out.append("Hash digest has the wrong length: ");
                        out.append(h.as_str());
                    },
                    HashParseError::InvalidDigest(h) => {
                        out.append("Hash digest holds a character that is no hex digit: ");
                        out.append(h.as_str());
                    },
                }
            },
            HashStrategyError::UnpinnedRequirement(req, m) => {
                out.append("In `");
                out.append(m.to_display_string());
                out.append("` mode, all requirement must have their versions pinned with `==`, but found: ");
                out.append(req.as_str());
            },
            HashStrategyError::MissingHashes(req, m) => {
                out.append("In `");
                out.append(m.to_display_string());
                out.append("` mode, all requirement must have a hash, but none were provided for: ");
                out.append(req.as_str());
            },
        }
        proof {
            assert(out@ =~= spec_describe_strategy_err(self@));
        }
        out
    }
}

} // verus!
