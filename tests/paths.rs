use hitman_core::extract::{parse_path, PathStep};
use hitman_core::run::echo_request;

#[test]
fn parses_rooted_path() {
    let steps = parse_path("$.data.0.id").expect("a path");
    assert_eq!(steps.len(), 3);
    assert!(matches!(&steps[0], PathStep::Field(f) if f == "data"));
    assert!(matches!(&steps[1], PathStep::Index(0)));
    assert!(matches!(&steps[2], PathStep::Field(f) if f == "id"));
}

#[test]
fn parses_plain_and_root_paths() {
    let steps = parse_path("token").expect("a path");
    assert!(matches!(&steps[..], [PathStep::Field(f)] if f == "token"));
    assert!(parse_path("$").expect("the root").is_empty());
    let steps = parse_path("$items.12").expect("a path");
    assert!(matches!(&steps[..], [PathStep::Field(f), PathStep::Index(12)] if f == "items"));
}

#[test]
fn rejects_empty_segments_and_huge_indexes() {
    assert!(parse_path("").is_none());
    assert!(parse_path("a..b").is_none());
    assert!(parse_path("a.").is_none());
    assert!(parse_path("$.99999999999999999999999").is_none());
}

#[test]
fn echoes_request_lines() {
    assert_eq!(echo_request("GET /\r\nHost: x\n"), "> GET /\n> Host: x\n\n");
    assert_eq!(echo_request("a\n\nb"), "> a\n> \n> b\n\n");
    assert_eq!(echo_request(""), "\n");
}
