//! Unit tests of the registry, the token parser, the number codec, the
//! extraction rules and the renderers.

use urlq::component::UrlComponent;
use urlq::errors::CoreError;
use urlq::mutate::parse_assignment;
use urlq::pipeline::{process_line, Action};
use urlq::text::{parse_u16, u16_to_string};

fn get(targets: Vec<UrlComponent>) -> Action {
    Action::Get { targets }
}

#[test]
fn component_names_round_trip() {
    let all = [
        UrlComponent::Fragment,
        UrlComponent::Host,
        UrlComponent::Password,
        UrlComponent::Path,
        UrlComponent::Port,
        UrlComponent::Query,
        UrlComponent::Scheme,
        UrlComponent::User,
    ];
    for c in all {
        assert_eq!(UrlComponent::of_name(c.name()), Some(c));
    }
    assert_eq!(UrlComponent::of_name("bogus"), None);
    assert_eq!(UrlComponent::of_name(""), None);
}

#[test]
fn assignment_token_splits_on_first_equals() {
    let a = parse_assignment("query=a=1&b=2").unwrap();
    assert!(matches!(a.target, UrlComponent::Query));
    assert_eq!(a.value, "a=1&b=2");
}

#[test]
fn assignment_names_match_ignoring_case() {
    let a = parse_assignment("HOST=example.com").unwrap();
    assert!(matches!(a.target, UrlComponent::Host));
    assert_eq!(a.value, "example.com");
    let a = parse_assignment("Port=8080").unwrap();
    assert!(matches!(a.target, UrlComponent::Port));
    // The value is kept as written; only the name folds.
    let a = parse_assignment("fragment=MiXeD").unwrap();
    assert_eq!(a.value, "MiXeD");
}

#[test]
fn set_with_uppercase_name_through_pipeline() {
    let r = process_line(
        "https://curl.se",
        &Action::Mutate { actions: vec![parse_assignment("HOST=example.com").unwrap()] },
        false,
    );
    assert_eq!(r.unwrap(), "https://example.com/\n");
}

#[test]
fn assignment_token_without_equals_is_syntax_error() {
    match parse_assignment("hostexample.com") {
        Err(CoreError::AssignmentSyntax { token }) => {
            assert_eq!(token, "hostexample.com");
        }
        other => panic!("expected a syntax error, got {:?}", other.is_ok()),
    }
}

#[test]
fn assignment_token_with_unknown_name() {
    match parse_assignment("bogus=1") {
        Err(CoreError::UnknownComponent { name }) => assert_eq!(name, "bogus"),
        other => panic!("expected an unknown-component error, got {:?}", other.is_ok()),
    }
}

#[test]
fn error_messages_name_the_offender() {
    let e = CoreError::AssignmentSyntax { token: String::from("oops") };
    assert_eq!(e.message(), "should be \"url_part=value\" got oops");
    let e = CoreError::UrlParse { input: String::from("xyz") };
    assert_eq!(e.message(), "invalid URL xyz");
    let e = CoreError::ComponentSet {
        component: UrlComponent::Port,
        value: String::from("abc"),
    };
    assert_eq!(e.message(), "invalid port abc");
}

#[test]
fn port_token_parsing_matches_std() {
    assert_eq!(parse_u16("443"), Some(443));
    assert_eq!(parse_u16("+8080"), Some(8080));
    assert_eq!(parse_u16("0"), Some(0));
    assert_eq!(parse_u16("65535"), Some(65535));
    assert_eq!(parse_u16("00443"), Some(443));
    assert_eq!(parse_u16("65536"), None);
    assert_eq!(parse_u16(""), None);
    assert_eq!(parse_u16("+"), None);
    assert_eq!(parse_u16("12a"), None);
    assert_eq!(parse_u16("-1"), None);
}

#[test]
fn port_rendering_is_decimal() {
    assert_eq!(u16_to_string(443), "443");
    assert_eq!(u16_to_string(0), "0");
    assert_eq!(u16_to_string(65535), "65535");
}

#[test]
fn empty_component_is_omitted() {
    // No fragment: the entry is absent, so plain output is an empty line.
    let r = process_line("https://example.com/x", &get(vec![UrlComponent::Fragment]), false);
    assert_eq!(r.unwrap(), "\n");
    // Same in JSON: only the url entry remains.
    let r = process_line("https://example.com/x", &get(vec![UrlComponent::Fragment]), true);
    assert_eq!(r.unwrap(), "{\"url\":\"https://example.com/x\"}\n");
}

#[test]
fn empty_user_is_omitted() {
    let r = process_line("https://example.com/", &get(vec![UrlComponent::User]), true);
    assert_eq!(r.unwrap(), "{\"url\":\"https://example.com/\"}\n");
}

#[test]
fn duplicate_request_keeps_first_occurrence_only() {
    let r = process_line(
        "https://example.com/x",
        &get(vec![UrlComponent::Scheme, UrlComponent::Scheme]),
        false,
    );
    assert_eq!(r.unwrap(), "https\n");
}

#[test]
fn query_expands_to_decoded_pairs() {
    let r = process_line("https://example.com/?a=1&b=2", &get(vec![UrlComponent::Query]), true);
    assert_eq!(
        r.unwrap(),
        "{\"url\":\"https://example.com/?a=1&b=2\",\"query\":{\"a\":\"1\",\"b\":\"2\"}}\n",
    );
}

#[test]
fn query_pairs_are_percent_and_plus_decoded() {
    let r = process_line(
        "https://example.com/?a%20b=1+2",
        &get(vec![UrlComponent::Query]),
        true,
    );
    assert_eq!(
        r.unwrap(),
        "{\"url\":\"https://example.com/?a%20b=1+2\",\"query\":{\"a b\":\"1 2\"}}\n",
    );
}

#[test]
fn absent_query_is_entirely_omitted() {
    let r = process_line("https://example.com/x", &get(vec![UrlComponent::Query]), true);
    assert_eq!(r.unwrap(), "{\"url\":\"https://example.com/x\"}\n");
    let r = process_line("https://example.com/x", &get(vec![UrlComponent::Query]), false);
    assert_eq!(r.unwrap(), "\n");
}

#[test]
fn query_plain_fallback_is_deterministic() {
    let r = process_line(
        "https://example.com/?a=1&b=2",
        &get(vec![UrlComponent::Query]),
        false,
    );
    assert_eq!(r.unwrap(), "a=1,b=2\n");
}

#[test]
fn no_default_port_for_unknown_scheme() {
    let r = process_line("foo://example.com/x", &get(vec![UrlComponent::Port]), false);
    assert_eq!(r.unwrap(), "\n");
    let r = process_line("foo://example.com:99/x", &get(vec![UrlComponent::Port]), false);
    assert_eq!(r.unwrap(), "99\n");
}

#[test]
fn explicit_port_wins_over_default() {
    let r = process_line("https://example.com:8443/x", &get(vec![UrlComponent::Port]), false);
    assert_eq!(r.unwrap(), "8443\n");
}

#[test]
fn json_strings_are_escaped() {
    let r = process_line(
        "https://example.com/x",
        &get(vec![UrlComponent::Fragment]),
        true,
    );
    assert_eq!(r.unwrap(), "{\"url\":\"https://example.com/x\"}\n");
    // A fragment with a double quote must be escaped in JSON output.
    let line = process_line(
        "https://example.com/x",
        &Action::Mutate {
            actions: vec![parse_assignment("fragment=a\"b\\c").unwrap()],
        },
        true,
    )
    .unwrap();
    assert!(line.contains("\"fragment\":\"a%22b\\\\c\""), "got: {line}");
}

#[test]
fn get_with_no_targets_yields_url_only() {
    let r = process_line("https://example.com/x", &get(vec![]), true);
    assert_eq!(r.unwrap(), "{\"url\":\"https://example.com/x\"}\n");
    let r = process_line("https://example.com/x", &get(vec![]), false);
    assert_eq!(r.unwrap(), "\n");
}
