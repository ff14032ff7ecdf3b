use std::str::FromStr;

use puffin_core::digest::{HashAlgorithm, HashDigest, HashParseError};
use puffin_core::package_id::{PackageId, PackageName};
use puffin_core::requirement::{
    Operator, Requirement, RequirementSource, UnnamedRequirement, UnresolvedRequirement,
    VersionSpecifier,
};
use puffin_core::strategy::{HashCheckingMode, HashPolicy, HashStrategy, HashStrategyError};

fn named(name: &str, operator: Operator, version: &str) -> UnresolvedRequirement {
    UnresolvedRequirement::Named(Requirement {
        name: PackageName::new(name),
        source: RequirementSource::Registry {
            specifiers: vec![VersionSpecifier { operator, version: version.to_string() }],
        },
        marker: None,
    })
}

fn sha256_digest(fill: &str) -> String {
    format!("sha256:{}", fill.repeat(32))
}

#[test]
fn digest_round_trips_to_lowercase_canonical_form() {
    let text = sha256_digest("ab");
    let digest = HashDigest::from_str(text.as_str()).unwrap();
    assert_eq!(digest.algorithm, HashAlgorithm::Sha256);
    assert_eq!(digest.to_display_string(), text);
}

#[test]
fn digest_parsing_lowercases_upper_case_hex() {
    let digest = HashDigest::from_str(format!("md5:{}", "AB".repeat(16)).as_str()).unwrap();
    assert_eq!(digest.to_display_string(), format!("md5:{}", "ab".repeat(16)));
}

#[test]
fn digest_parsing_rejects_unknown_algorithm() {
    assert!(matches!(
        HashDigest::from_str("sha1:abcd"),
        Err(HashParseError::UnsupportedAlgorithm(n)) if n == "sha1"
    ));
}

#[test]
fn digest_parsing_rejects_wrong_length() {
    assert!(matches!(
        HashDigest::from_str("sha256:abcd"),
        Err(HashParseError::InvalidLength(h)) if h == "abcd"
    ));
}

#[test]
fn digest_parsing_rejects_non_hex_characters() {
    let bad = format!("sha256:{}", "zz".repeat(32));
    assert!(matches!(
        HashDigest::from_str(bad.as_str()),
        Err(HashParseError::InvalidDigest(_))
    ));
}

#[test]
fn digest_lengths_follow_the_algorithm() {
    assert!(HashDigest::from_str(format!("md5:{}", "0f".repeat(16)).as_str()).is_ok());
    assert!(HashDigest::from_str(format!("sha384:{}", "0f".repeat(48)).as_str()).is_ok());
    assert!(HashDigest::from_str(format!("sha512:{}", "0f".repeat(64)).as_str()).is_ok());
    assert!(HashDigest::from_str(format!("sha512:{}", "0f".repeat(48)).as_str()).is_err());
}

#[test]
fn package_names_canonicalize() {
    assert_eq!(PackageName::new("Foo.Bar_baz--qux").as_str(), "foo-bar-baz-qux");
    assert_eq!(PackageName::new("Albatross").as_str(), "albatross");
}

#[test]
fn url_identities_drop_the_fragment() {
    let a = PackageId::from_url("https://example.com/pkg.whl#fragment");
    let b = PackageId::from_url("https://example.com/pkg.whl");
    assert!(a.key_eq(&b));
}

#[test]
fn require_mode_admission() {
    let entries = vec![(named("albatross", Operator::Equal, "1.0.0"), vec![sha256_digest("ab")])];
    let strategy = HashStrategy::require(&entries, None).unwrap();
    assert!(strategy.allows_package(&PackageName::new("albatross")));
    assert!(!strategy.allows_package(&PackageName::new("walrus")));
    assert_eq!(strategy.get_package(&PackageName::new("walrus")), HashPolicy::Validate(vec![]));
    match strategy.get_package(&PackageName::new("albatross")) {
        HashPolicy::Validate(ds) => {
            assert_eq!(ds.len(), 1);
            assert_eq!(ds[0].to_display_string(), sha256_digest("ab"));
        }
        other => panic!("unexpected policy: {:?}", other),
    }
}

#[test]
fn verify_mode_with_no_entries_is_a_no_op() {
    let strategy = HashStrategy::verify(&vec![], None).unwrap();
    assert!(strategy.allows_package(&PackageName::new("anything")));
    assert!(strategy.allows_url("https://example.com/x"));
    assert_eq!(strategy.get_package(&PackageName::new("anything")), HashPolicy::Off);
    assert_eq!(strategy.get_url("https://example.com/x"), HashPolicy::Off);
}

#[test]
fn get_agrees_with_get_package_and_get_url() {
    let entries = vec![
        (named("albatross", Operator::Equal, "1.0.0"), vec![sha256_digest("ab")]),
        (
            UnresolvedRequirement::Unnamed(UnnamedRequirement {
                url: "https://example.com/walrus.whl".to_string(),
                marker: None,
            }),
            vec![sha256_digest("cd")],
        ),
    ];
    let strategy = HashStrategy::require(&entries, None).unwrap();
    let name = PackageName::new("albatross");
    let registry = PackageId::from_registry(PackageName::new("albatross"));
    assert_eq!(strategy.get(&registry), strategy.get_package(&name));
    let url_id = PackageId::from_url("https://example.com/walrus.whl");
    assert_eq!(strategy.get(&url_id), strategy.get_url("https://example.com/walrus.whl"));
    assert!(strategy.allows_url("https://example.com/walrus.whl"));
}

#[test]
fn require_refuses_an_unpinned_requirement() {
    let entries = vec![
        (named("albatross", Operator::GreaterThanEqual, "1.0"), vec![sha256_digest("ab")]),
    ];
    match HashStrategy::require(&entries, None) {
        Err(HashStrategyError::UnpinnedRequirement(req, HashCheckingMode::Require)) => {
            assert_eq!(req, "albatross>=1.0");
        }
        other => panic!("unexpected result: {:?}", other),
    }
}

#[test]
fn require_refuses_a_requirement_without_hashes() {
    let entries = vec![(named("albatross", Operator::Equal, "1.0.0"), vec![])];
    match HashStrategy::require(&entries, None) {
        Err(HashStrategyError::MissingHashes(req, HashCheckingMode::Require)) => {
            assert_eq!(req, "albatross==1.0.0");
        }
        other => panic!("unexpected result: {:?}", other),
    }
}

#[test]
fn require_surfaces_digest_parse_errors() {
    let entries = vec![
        (named("albatross", Operator::Equal, "1.0.0"), vec!["sha256:short".to_string()]),
    ];
    assert!(matches!(
        HashStrategy::require(&entries, None),
        Err(HashStrategyError::Hash(HashParseError::InvalidLength(_)))
    ));
}

#[test]
fn verify_keeps_unpinned_requirements_without_digests() {
    let entries = vec![(named("albatross", Operator::GreaterThanEqual, "1.0"), vec![])];
    let strategy = HashStrategy::verify(&entries, None).unwrap();
    assert_eq!(strategy.get_package(&PackageName::new("albatross")), HashPolicy::Off);
}

#[test]
fn verify_demands_pinning_once_digests_appear() {
    let entries = vec![
        (named("albatross", Operator::GreaterThanEqual, "1.0"), vec![sha256_digest("ab")]),
    ];
    assert!(matches!(
        HashStrategy::verify(&entries, None),
        Err(HashStrategyError::UnpinnedRequirement(_, HashCheckingMode::Verify))
    ));
}

#[test]
fn the_last_entry_for_a_package_wins() {
    let entries = vec![
        (named("albatross", Operator::Equal, "1.0.0"), vec![sha256_digest("ab")]),
        (named("albatross", Operator::Equal, "1.0.0"), vec![sha256_digest("cd")]),
    ];
    let strategy = HashStrategy::require(&entries, None).unwrap();
    match strategy.get_package(&PackageName::new("albatross")) {
        HashPolicy::Validate(ds) => {
            assert_eq!(ds.len(), 1);
            assert_eq!(ds[0].to_display_string(), sha256_digest("cd"));
        }
        other => panic!("unexpected policy: {:?}", other),
    }
}

#[test]
fn a_requirement_with_an_unsatisfied_marker_is_skipped() {
    let marker = pep508_rs::MarkerTree::from_str("extra == \"cold\"").unwrap();
    let entries = vec![
        (
            UnresolvedRequirement::Named(Requirement {
                name: PackageName::new("albatross"),
                source: RequirementSource::Registry {
                    specifiers: vec![VersionSpecifier {
                        operator: Operator::GreaterThanEqual,
                        version: "1.0".to_string(),
                    }],
                },
                marker: Some(marker),
            }),
            vec![],
        ),
    ];
    // Without an environment, only extra names are honored, no extra is
    // active, and the entry is skipped: even an unpinned, hashless
    // requirement passes.
    assert!(HashStrategy::require(&entries, None).is_ok());
}

#[test]
fn a_requirement_with_a_satisfied_marker_is_kept() {
    let marker = pep508_rs::MarkerTree::from_str("python_version >= \"3\"").unwrap();
    let entries = vec![
        (
            UnresolvedRequirement::Named(Requirement {
                name: PackageName::new("albatross"),
                source: RequirementSource::Registry {
                    specifiers: vec![VersionSpecifier {
                        operator: Operator::GreaterThanEqual,
                        version: "1.0".to_string(),
                    }],
                },
                marker: Some(marker),
            }),
            vec![],
        ),
    ];
    // Without an environment, environment references count as true: the
    // entry is kept and fails for want of pinning.
    assert!(matches!(
        HashStrategy::require(&entries, None),
        Err(HashStrategyError::UnpinnedRequirement(_, HashCheckingMode::Require))
    ));
}

#[test]
fn git_and_path_requirements_always_pin() {
    let entries = vec![
        (
            UnresolvedRequirement::Named(Requirement {
                name: PackageName::new("albatross"),
                source: RequirementSource::Git {
                    url: "https://example.com/albatross.git".to_string(),
                },
                marker: None,
            }),
            vec![sha256_digest("ab")],
        ),
        (
            UnresolvedRequirement::Named(Requirement {
                name: PackageName::new("walrus"),
                source: RequirementSource::Path { url: "file:///tmp/walrus".to_string() },
                marker: None,
            }),
            vec![sha256_digest("cd")],
        ),
    ];
    let strategy = HashStrategy::require(&entries, None).unwrap();
    assert!(strategy.allows_url("https://example.com/albatross.git"));
    assert!(strategy.allows_url("file:///tmp/walrus"));
    assert!(!strategy.allows_url("https://example.com/other"));
}

#[test]
fn requirement_displays_render_for_error_reports() {
    let named_req = named("Albatross", Operator::Equal, "1.0.0");
    assert_eq!(named_req.to_display_string(), "albatross==1.0.0");
    let unnamed = UnresolvedRequirement::Unnamed(UnnamedRequirement {
        url: "https://example.com/walrus.whl".to_string(),
        marker: None,
    });
    assert_eq!(unnamed.to_display_string(), "https://example.com/walrus.whl");
    let two_specs = UnresolvedRequirement::Named(Requirement {
        name: PackageName::new("albatross"),
        source: RequirementSource::Registry {
            specifiers: vec![
                VersionSpecifier { operator: Operator::GreaterThanEqual, version: "1.0".to_string() },
                VersionSpecifier { operator: Operator::LessThan, version: "2".to_string() },
            ],
        },
        marker: None,
    });
    assert_eq!(two_specs.to_display_string(), "albatross>=1.0,<2");
}

#[test]
fn mode_and_error_summaries_are_stable() {
    assert_eq!(HashCheckingMode::Require.to_display_string(), "--require-hashes");
    assert_eq!(HashCheckingMode::Verify.to_display_string(), "--verify-hashes");
    let err = HashStrategyError::MissingHashes("albatross==1.0.0".to_string(), HashCheckingMode::Require);
    assert_eq!(
        err.to_display_string(),
        "In `--require-hashes` mode, all requirement must have a hash, but none were provided for: albatross==1.0.0"
    );
}

#[test]
fn off_and_generate_strategies_apply_everywhere() {
    let off = HashStrategy::Off;
    assert_eq!(off.get_package(&PackageName::new("anything")), HashPolicy::Off);
    assert!(off.allows_package(&PackageName::new("anything")));
    let generate = HashStrategy::Generate;
    assert_eq!(generate.get_package(&PackageName::new("anything")), HashPolicy::Generate);
    assert!(generate.allows_url("https://example.com/x"));
}
