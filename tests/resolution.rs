use hitman_core::env::{Environment, Layer};
use hitman_core::extract::{extract, extract_into, ExtractionRule, PathStep};
use hitman_core::session::{Session, Step};
use hitman_core::substitute::{substitute, Substitution};
use hitman_core::value::Datum;

fn text(s: &str) -> Datum {
    Datum::Text(s.to_string())
}

fn layer(pairs: Vec<(&str, Datum)>) -> Layer {
    Layer { entries: pairs.into_iter().map(|(k, v)| (k.to_string(), v)).collect() }
}

fn empty_env() -> Environment {
    Environment::new(Layer::new(), Layer::new(), Layer::new())
}

fn candidate(name: &str, value: &str) -> Datum {
    Datum::Table(vec![
        ("name".to_string(), text(name)),
        ("value".to_string(), text(value)),
    ])
}

#[test]
fn template_without_placeholders_is_unchanged() {
    let env = Environment::new(layer(vec![("a", text("1"))]), Layer::new(), Layer::new());
    let t = "GET https://example.com/{a}\nAccept: */*";
    match substitute(t, &env) {
        Substitution::Resolved(s) => assert_eq!(s, t),
        _ => panic!("expected resolved text"),
    }
}

#[test]
fn unclosed_braces_are_plain_text() {
    let env = empty_env();
    match substitute("a {{b", &env) {
        Substitution::Resolved(s) => assert_eq!(s, "a {{b"),
        _ => panic!("expected resolved text"),
    }
}

#[test]
fn missing_token_then_override() {
    let mut env = empty_env();
    match substitute("Authorization: {{token}}", &env) {
        Substitution::ValueNotFound { name, fallback } => {
            assert_eq!(name, "token");
            assert_eq!(fallback, None);
        }
        _ => panic!("expected a missing value"),
    }
    env.add_override("token".to_string(), "xyz".to_string());
    match substitute("Authorization: {{token}}", &env) {
        Substitution::Resolved(s) => assert_eq!(s, "Authorization: xyz"),
        _ => panic!("expected resolved text"),
    }
}

#[test]
fn missing_value_carries_fallback() {
    let env = empty_env();
    match substitute("x {{host:-localhost:8080}} y", &env) {
        Substitution::ValueNotFound { name, fallback } => {
            assert_eq!(name, "host");
            assert_eq!(fallback, Some("localhost:8080".to_string()));
        }
        _ => panic!("expected a missing value"),
    }
}

#[test]
fn fallback_is_never_substituted_silently() {
    let env = Environment::new(layer(vec![("host", text("example.org"))]), Layer::new(), Layer::new());
    match substitute("{{host:-localhost}}", &env) {
        Substitution::Resolved(s) => assert_eq!(s, "example.org"),
        _ => panic!("expected resolved text"),
    }
}

#[test]
fn stops_at_first_unresolved() {
    let env = Environment::new(layer(vec![("b", text("2"))]), Layer::new(), Layer::new());
    match substitute("{{a}} {{b}} {{c}}", &env) {
        Substitution::ValueNotFound { name, .. } => assert_eq!(name, "a"),
        _ => panic!("expected a missing value"),
    }
}

#[test]
fn candidates_then_choice() {
    let list = Datum::List(vec![candidate("prod", "https://prod"), candidate("dev", "https://dev")]);
    let mut env = Environment::new(Layer::new(), Layer::new(), layer(vec![("env", list)]));
    let second = candidate("dev", "https://dev");
    match substitute("{{env}}", &env) {
        Substitution::MultipleValuesFound { name, candidates } => {
            assert_eq!(name, "env");
            assert_eq!(candidates.len(), 2);
            assert_eq!(candidates[0], candidate("prod", "https://prod"));
            assert_eq!(candidates[1], second);
        }
        _ => panic!("expected candidates"),
    }
    let mut session = Session::new();
    assert!(session.pick(&mut env, "env".to_string(), &second));
    match substitute("{{env}}", &env) {
        Substitution::Resolved(s) => assert_eq!(s, "https://dev"),
        _ => panic!("expected resolved text"),
    }
}

#[test]
fn one_candidate_still_asks() {
    let list = Datum::List(vec![candidate("only", "x")]);
    let env = Environment::new(Layer::new(), layer(vec![("e", list)]), Layer::new());
    assert!(matches!(substitute("{{e}}", &env), Substitution::MultipleValuesFound { .. }));
}

#[test]
fn table_value_is_unsupported() {
    let env = Environment::new(layer(vec![("t", candidate("a", "b"))]), Layer::new(), Layer::new());
    match substitute("{{t}}", &env) {
        Substitution::Unsupported { name } => assert_eq!(name, "t"),
        _ => panic!("expected unsupported"),
    }
}

#[test]
fn layer_precedence() {
    let mut env = Environment::new(
        layer(vec![("k", text("data"))]),
        layer(vec![("k", text("target")), ("t", text("target"))]),
        layer(vec![("k", text("global")), ("t", text("global")), ("g", text("global"))]),
    );
    match substitute("{{k}} {{t}} {{g}}", &env) {
        Substitution::Resolved(s) => assert_eq!(s, "data target global"),
        _ => panic!("expected resolved text"),
    }
    env.add_override("k".to_string(), "override".to_string());
    env.add_override("g".to_string(), "override".to_string());
    match substitute("{{k}} {{t}} {{g}}", &env) {
        Substitution::Resolved(s) => assert_eq!(s, "override target override"),
        _ => panic!("expected resolved text"),
    }
}

#[test]
fn scalar_values_use_their_text() {
    let env = Environment::new(
        Layer::new(),
        Layer::new(),
        layer(vec![("port", Datum::Scalar("8080".to_string()))]),
    );
    match substitute("host:{{port}}/", &env) {
        Substitution::Resolved(s) => assert_eq!(s, "host:8080/"),
        _ => panic!("expected resolved text"),
    }
}

#[test]
fn persist_twice_is_persist_once() {
    let pairs = || vec![("a".to_string(), text("1")), ("b".to_string(), text("2")), ("a".to_string(), text("3"))];
    let mut once = Layer::new();
    once.persist(pairs());
    let mut twice = Layer::new();
    twice.persist(pairs());
    twice.persist(pairs());
    assert_eq!(once.entries.len(), 2);
    assert_eq!(twice.entries.len(), 2);
    assert_eq!(once.get("a"), Some(&text("3")));
    assert_eq!(twice.get("a"), Some(&text("3")));
    assert_eq!(twice.get("b"), Some(&text("2")));
}

#[test]
fn extract_then_persist_resolves_later() {
    let body = Datum::Table(vec![("token".to_string(), text("abc123"))]);
    let rules = vec![ExtractionRule {
        name: "token".to_string(),
        path: vec![PathStep::Field("token".to_string())],
    }];
    let mut env = empty_env();
    extract_into(&mut env, &body, &rules);
    match substitute("Bearer {{token}}", &env) {
        Substitution::Resolved(s) => assert_eq!(s, "Bearer abc123"),
        _ => panic!("expected resolved text"),
    }
    // a later session keeps the persisted layer
    let mut later = Environment::new(env.data, Layer::new(), Layer::new());
    later.start_session(&vec![]);
    match substitute("{{token}}", &later) {
        Substitution::Resolved(s) => assert_eq!(s, "abc123"),
        _ => panic!("expected resolved text"),
    }
}

#[test]
fn extraction_skips_unresolvable_rules() {
    let body = Datum::Table(vec![
        ("data".to_string(), Datum::List(vec![Datum::Table(vec![("id".to_string(), Datum::Scalar("7".to_string()))])])),
        ("obj".to_string(), Datum::Table(vec![])),
    ]);
    let rules = vec![
        ExtractionRule { name: "missing".to_string(), path: vec![PathStep::Field("nope".to_string())] },
        ExtractionRule {
            name: "id".to_string(),
            path: vec![PathStep::Field("data".to_string()), PathStep::Index(0), PathStep::Field("id".to_string())],
        },
        ExtractionRule { name: "out_of_range".to_string(), path: vec![PathStep::Field("data".to_string()), PathStep::Index(3)] },
        ExtractionRule { name: "table".to_string(), path: vec![PathStep::Field("obj".to_string())] },
    ];
    let pairs = extract(&body, &rules);
    assert_eq!(pairs, vec![("id".to_string(), Datum::Scalar("7".to_string()))]);
}

#[test]
fn batch_sets_see_earlier_extractions() {
    let mut env = Environment::new(Layer::new(), Layer::new(), layer(vec![("user", text("default"))]));
    let sets = vec![
        vec![("user".to_string(), "alice".to_string())],
        vec![("user".to_string(), "bob".to_string())],
    ];
    // first set: its request's response gives a session
    env.start_session(&sets[0]);
    match substitute("login {{user}}", &env) {
        Substitution::Resolved(s) => assert_eq!(s, "login alice"),
        _ => panic!("expected resolved text"),
    }
    let response = Datum::Table(vec![("session".to_string(), text("aaa"))]);
    let rules = vec![ExtractionRule { name: "session".to_string(), path: vec![PathStep::Field("session".to_string())] }];
    extract_into(&mut env, &response, &rules);
    // second set
    env.start_session(&sets[1]);
    match substitute("{{user}} {{session}}", &env) {
        Substitution::Resolved(s) => assert_eq!(s, "bob aaa"),
        _ => panic!("expected resolved text"),
    }
}

#[test]
fn session_asks_each_name_once() {
    let mut env = empty_env();
    let mut session = Session::new();
    match session.step("{{a}}{{b:-x}}", &env) {
        Step::AskValue { name, fallback } => {
            assert_eq!(name, "a");
            assert_eq!(fallback, None);
        }
        _ => panic!("expected a question"),
    }
    session.supply(&mut env, "a".to_string(), "1".to_string());
    match session.step("{{a}}{{b:-x}}", &env) {
        Step::AskValue { name, fallback } => {
            assert_eq!(name, "b");
            assert_eq!(fallback, Some("x".to_string()));
        }
        _ => panic!("expected a question"),
    }
    session.supply(&mut env, "b".to_string(), "2".to_string());
    match session.step("{{a}}{{b:-x}}", &env) {
        Step::Ready(s) => assert_eq!(s, "12"),
        _ => panic!("expected the finished text"),
    }
}

#[test]
fn session_reports_repeated_name() {
    let list = Datum::List(vec![Datum::Table(vec![])]);
    let mut env = Environment::new(Layer::new(), layer(vec![("e", list)]), Layer::new());
    let mut session = Session::new();
    // an answer under another spelling leaves the name unresolved
    session.supply(&mut env, "E".to_string(), "x".to_string());
    assert!(matches!(session.step("{{e}}", &env), Step::AskChoice { .. }));
    let mut asked = Session::new();
    asked.asked.push("e".to_string());
    match asked.step("{{e}}", &env) {
        Step::Repeated { name } => assert_eq!(name, "e"),
        _ => panic!("expected a repeated name"),
    }
}

#[test]
fn pick_without_value_changes_nothing() {
    let mut env = empty_env();
    let mut session = Session::new();
    let no_value = Datum::Table(vec![("name".to_string(), text("n"))]);
    assert!(!session.pick(&mut env, "k".to_string(), &no_value));
    assert!(session.asked.is_empty());
    assert!(env.get("k").is_none());
    assert!(session.pick(&mut env, "k".to_string(), &Datum::Scalar("5".to_string())));
    assert_eq!(env.get("k"), Some(&text("5")));
}
