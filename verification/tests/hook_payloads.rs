use std::str::FromStr;

use puffin_core::hooks::{
    interpret_build_result, interpret_metadata_result, interpret_requires_result,
    parse_requires_elements, render_requires_list,
};
use puffin_core::protocol::DaemonError;

#[test]
fn requirements_payload_parses() {
    let reqs = interpret_requires_result("['wheel', 'setuptools>=42']").unwrap();
    assert_eq!(reqs.len(), 2);
    let wheel: pep508_rs::Requirement = pep508_rs::Requirement::from_str("wheel").unwrap();
    let setuptools: pep508_rs::Requirement =
        pep508_rs::Requirement::from_str("setuptools>=42").unwrap();
    assert_eq!(reqs[0].to_display_string(), wheel.to_string());
    assert_eq!(reqs[1].to_display_string(), setuptools.to_string());
}

#[test]
fn malformed_requirement_yields_invalid_result() {
    match interpret_requires_result("['bad req', '']") {
        Err(DaemonError::InvalidResult(payload, _reason)) => assert_eq!(payload, "bad req"),
        Err(other) => panic!("unexpected error: {:?}", other),
        Ok(_) => panic!("a malformed element must fail the result"),
    }
}

#[test]
fn a_name_token_ending_in_a_separator_is_refused() {
    // The dependency-specifier parser cannot be consulted on such an
    // element: it is refused up front, as the malformed element it is.
    match interpret_requires_result("['foo- ==1.0', 'wheel']") {
        Err(DaemonError::InvalidResult(payload, reason)) => {
            assert_eq!(payload, "foo- ==1.0");
            assert_eq!(reason, "a name or extra token may not end in '-', '_' or '.'");
        }
        Err(other) => panic!("unexpected error: {:?}", other),
        Ok(_) => panic!("a dangling separator must fail the result"),
    }
}

#[test]
fn an_extra_token_ending_in_a_separator_is_refused() {
    match interpret_requires_result("['foo[bar_]']") {
        Err(DaemonError::InvalidResult(payload, _reason)) => assert_eq!(payload, "foo[bar_]"),
        Err(other) => panic!("unexpected error: {:?}", other),
        Ok(_) => panic!("a dangling separator must fail the result"),
    }
}

#[test]
fn clean_names_with_separators_inside_still_parse() {
    // Separators inside a name or before a version are fine; only a
    // token ending in one is refused.
    let reqs = interpret_requires_result("['foo.bar ==1.0', 'baz[extra1]>=2']").unwrap();
    assert_eq!(reqs.len(), 2);
}

#[test]
fn empty_list_yields_no_requirements() {
    let reqs = interpret_requires_result("[]").unwrap();
    assert_eq!(reqs.len(), 0);
}

#[test]
fn empty_elements_are_dropped() {
    let elems = parse_requires_elements("['', 'wheel', '']").unwrap();
    assert_eq!(elems, vec!["wheel".to_string()]);
}

#[test]
fn unbracketed_payload_is_an_invalid_result() {
    match parse_requires_elements("no list here") {
        Err(DaemonError::InvalidResult(payload, reason)) => {
            assert_eq!(payload, "no list here");
            assert_eq!(reason, "expected a bracketed list");
        }
        other => panic!("unexpected result: {:?}", other),
    }
}

#[test]
fn requirements_list_round_trips() {
    // Parsing then re-emitting preserves the elements.
    let payload = "['wheel', 'setuptools>=42', 'tomli']";
    let elems = parse_requires_elements(payload).unwrap();
    let rendered = render_requires_list(&elems);
    assert_eq!(rendered, payload);
    let again = parse_requires_elements(rendered.as_str()).unwrap();
    assert_eq!(again, elems);
}

#[test]
fn rendering_an_empty_list_round_trips() {
    let elems: Vec<String> = vec![];
    let rendered = render_requires_list(&elems);
    assert_eq!(rendered, "[]");
    assert_eq!(parse_requires_elements("[]").unwrap(), elems);
}

#[test]
fn build_payload_is_the_archive_filename() {
    assert_eq!(interpret_build_result("pkg-1.0.whl"), "pkg-1.0.whl");
}

#[test]
fn metadata_payload_names_the_directory_or_declines() {
    assert_eq!(interpret_metadata_result("pkg-1.0.dist-info"), Some("pkg-1.0.dist-info".to_string()));
    assert_eq!(interpret_metadata_result(""), None);
}
