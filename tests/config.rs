use hitman_core::config::{extract_response, is_known_target, list_targets, load, ConfigError};
use hitman_core::extract::{parse_path, ExtractionRule};
use hitman_core::substitute::{substitute, Substitution};
use hitman_core::value::Datum;

const CONFIG: &str = r#"
base = "https://global"
port = 8080
token = "global-token"

[_extract]
token = "$.token"

[dev]
base = "https://dev"

[prod]
base = "https://prod"
env = [{ name = "a", value = "1" }, { name = "b", value = "2" }]
"#;

fn resolved(t: &str, env: &hitman_core::env::Environment) -> String {
    match substitute(t, env) {
        Substitution::Resolved(s) => s,
        _ => panic!("expected resolved text"),
    }
}

#[test]
fn load_layers_target_over_global() {
    let env = match load(CONFIG, "dev", None, &vec![]) {
        Ok(e) => e,
        Err(_) => panic!("expected a loaded environment"),
    };
    assert_eq!(resolved("{{base}}:{{port}}", &env), "https://dev:8080");
    let env = match load(CONFIG, "prod", Some("base = \"https://data\""), &vec![]) {
        Ok(e) => e,
        Err(_) => panic!("expected a loaded environment"),
    };
    assert_eq!(resolved("{{base}}", &env), "https://data");
    assert!(matches!(substitute("{{env}}", &env), Substitution::MultipleValuesFound { .. }));
}

#[test]
fn load_overrides_win() {
    let opts = vec![("base".to_string(), "https://cli".to_string())];
    let env = match load(CONFIG, "dev", Some("base = \"https://data\""), &opts) {
        Ok(e) => e,
        Err(_) => panic!("expected a loaded environment"),
    };
    assert_eq!(resolved("{{base}}", &env), "https://cli");
}

#[test]
fn load_unknown_target_uses_global() {
    let env = match load(CONFIG, "staging", None, &vec![]) {
        Ok(e) => e,
        Err(_) => panic!("expected a loaded environment"),
    };
    assert_eq!(resolved("{{base}}", &env), "https://global");
    assert!(env.target.entries.is_empty());
}

#[test]
fn load_rejects_malformed_files() {
    assert!(matches!(load("a = ", "dev", None, &vec![]), Err(ConfigError::MalformedConfig)));
    assert!(matches!(load(CONFIG, "dev", Some("= 1"), &vec![]), Err(ConfigError::MalformedData)));
}

#[test]
fn targets_are_tables_not_reserved() {
    let names = match list_targets(CONFIG) {
        Ok(n) => n,
        Err(_) => panic!("expected targets"),
    };
    assert_eq!(names, vec!["dev".to_string(), "prod".to_string()]);
    assert!(is_known_target(&names, "prod"));
    assert!(!is_known_target(&names, "_extract"));
    assert!(matches!(list_targets("[x"), Err(ConfigError::MalformedConfig)));
}

#[test]
fn json_response_is_extracted() {
    let mut env = match load(CONFIG, "dev", None, &vec![]) {
        Ok(e) => e,
        Err(_) => panic!("expected a loaded environment"),
    };
    let rules = vec![ExtractionRule { name: "token".to_string(), path: parse_path("$.token").expect("a path") }];
    assert!(extract_response(&mut env, r#"{"token": "abc123", "n": 5}"#, &rules));
    assert_eq!(resolved("Bearer {{token}}", &env), "Bearer abc123");
    assert_eq!(env.data.get("token"), Some(&Datum::Text("abc123".to_string())));
}

#[test]
fn json_scalars_keep_their_text() {
    let mut env = match load("", "dev", None, &vec![]) {
        Ok(e) => e,
        Err(_) => panic!("expected a loaded environment"),
    };
    let rules = vec![ExtractionRule { name: "id".to_string(), path: parse_path("$.items.1.id").expect("a path") }];
    assert!(extract_response(&mut env, r#"{"items": [{"id": 1}, {"id": 42}]}"#, &rules));
    assert_eq!(env.data.get("id"), Some(&Datum::Scalar("42".to_string())));
}

#[test]
fn non_json_response_extracts_nothing() {
    let mut env = match load(CONFIG, "dev", None, &vec![]) {
        Ok(e) => e,
        Err(_) => panic!("expected a loaded environment"),
    };
    let rules = vec![ExtractionRule { name: "token".to_string(), path: parse_path("token").expect("a path") }];
    assert!(!extract_response(&mut env, "<html>token</html>", &rules));
    assert!(env.data.entries.is_empty());
    assert_eq!(resolved("{{token}}", &env), "global-token");
}
