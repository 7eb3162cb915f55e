//! End-to-end scenarios through the per-URL pipeline, each one URL in,
//! one output line out.

use urlq::component::UrlComponent;
use urlq::pipeline::{process_line, Action};

fn get(targets: Vec<UrlComponent>) -> Action {
    Action::Get { targets }
}

fn set(tokens: &[&str]) -> Action {
    let mut actions = Vec::new();
    for tok in tokens {
        actions.push(urlq::mutate::parse_assignment(tok).unwrap());
    }
    Action::Mutate { actions }
}

#[test]
fn set_host_plain() {
    let r = process_line("https://curl.se", &set(&["host=example.com"]), false);
    assert_eq!(r.unwrap(), "https://example.com/\n");
}

#[test]
fn set_port_normalized_path() {
    let r = process_line("https://curl.se/we/../are.html", &set(&["port=8080"]), false);
    assert_eq!(r.unwrap(), "https://curl.se:8080/are.html\n");
}

#[test]
fn get_path_plain() {
    let r = process_line("https://curl.se/we/are.html", &get(vec![UrlComponent::Path]), false);
    assert_eq!(r.unwrap(), "/we/are.html\n");
}

#[test]
fn get_default_port() {
    let r = process_line("https://curl.se/we/are.html", &get(vec![UrlComponent::Port]), false);
    assert_eq!(r.unwrap(), "443\n");
}

#[test]
fn get_scheme_port_path() {
    let r = process_line(
        "https://example.com/hello.html",
        &get(vec![UrlComponent::Scheme, UrlComponent::Port, UrlComponent::Path]),
        false,
    );
    assert_eq!(r.unwrap(), "https 443 /hello.html\n");
}

#[test]
fn set_user_json() {
    let r = process_line("https://fake.host/hello#frag", &set(&["user=::moo::"]), true);
    let expected = "{\"url\":\"https://%3A%3Amoo%3A%3A@fake.host/hello#frag\",\"fragment\":\"frag\",\"host\":\"fake.host\",\"path\":\"/hello\",\"port\":\"443\",\"scheme\":\"https\",\"user\":\"%3A%3Amoo%3A%3A\"}\n";
    assert_eq!(r.unwrap(), expected);
}

#[test]
fn three_stream_lines_in_order() {
    let action = get(vec![UrlComponent::Host]);
    let lines = ["https://a.example/x", "https://b.example/y", "https://c.example/z"];
    let mut out = Vec::new();
    for line in lines {
        out.push(process_line(line, &action, false).unwrap());
    }
    assert_eq!(out, vec!["a.example\n", "b.example\n", "c.example\n"]);
}

#[test]
fn round_trip_reparse_after_set() {
    let line = process_line(
        "https://curl.se/a/b?x=1",
        &set(&["host=example.org", "path=/c d", "fragment=z z"]),
        false,
    )
    .unwrap();
    let rendered = line.strip_suffix('\n').unwrap();
    let reparsed = url::Url::parse(rendered).unwrap();
    assert_eq!(reparsed.as_str(), rendered);
}

#[test]
fn invalid_url_is_fatal_parse_error() {
    let r = process_line("not a url", &get(vec![UrlComponent::Host]), false);
    match r {
        Err(urlq::errors::CoreError::UrlParse { input }) => assert_eq!(input, "not a url"),
        other => panic!("expected a URL parse error, got {:?}", other.is_ok()),
    }
}

#[test]
fn invalid_port_value_is_component_error() {
    let r = process_line("https://curl.se", &set(&["port=abc"]), false);
    match r {
        Err(urlq::errors::CoreError::ComponentSet { component, value }) => {
            assert!(matches!(component, UrlComponent::Port));
            assert_eq!(value, "abc");
        }
        other => panic!("expected a component error, got {:?}", other.is_ok()),
    }
}

#[test]
fn invalid_host_value_is_component_error() {
    let r = process_line("https://curl.se", &set(&["host=exa mple.com"]), false);
    match r {
        Err(urlq::errors::CoreError::ComponentSet { component, .. }) => {
            assert!(matches!(component, UrlComponent::Host));
        }
        other => panic!("expected a component error, got {:?}", other.is_ok()),
    }
}

#[test]
fn mutations_apply_in_order() {
    let r = process_line(
        "http://example.com/",
        &set(&["path=/p", "query=a=1", "fragment=f"]),
        false,
    );
    assert_eq!(r.unwrap(), "http://example.com/p?a=1#f\n");
}
