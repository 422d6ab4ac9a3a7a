use eproxy::proxy::{
    append_forwarded_for, build_target_url, drain_step, first_exit_cause, forward_request_header,
    forward_response_header, is_hop_by_hop_header, is_valid_header_value, merge_paths, ExitCause,
    TargetUrlError,
};
use http::{HeaderValue, Uri};
use eproxy::upstream_url::URL_INPUT_LIMIT;
use url::Url;

#[test]
fn merges_path_and_query() {
    let base = Url::parse("https://example.com:8443/api").expect("base URL");
    let uri: Uri = "/v1/chat/completions?stream=true".parse().expect("uri");

    let out = build_target_url(base.as_str(), uri.path(), uri.query()).expect("target URL");
    assert_eq!(
        out.as_str(),
        "https://example.com:8443/api/v1/chat/completions?stream=true"
    );
}

#[test]
fn keeps_root_when_no_path() {
    let base = Url::parse("https://example.com:8443").expect("base URL");
    let uri: Uri = "/".parse().expect("uri");

    let out = build_target_url(base.as_str(), uri.path(), uri.query()).expect("target URL");
    assert_eq!(out.as_str(), "https://example.com:8443/");
}

#[test]
fn appends_xff_chain() {
    let existing = HeaderValue::from_static("1.1.1.1");
    let out = append_forwarded_for(Some(existing.as_bytes()), "2.2.2.2".to_string());
    assert_eq!(out, "1.1.1.1, 2.2.2.2");
}

#[test]
fn target_url_replaces_base_query_and_joins_slashes() {
    let out = build_target_url("https://h.example/api/?x=1", "//v1/models", None).expect("target");
    assert_eq!(out, "https://h.example/api/v1/models");
    let out = build_target_url("https://h.example/", "/a", Some("b=2")).expect("target");
    assert_eq!(out, "https://h.example/a?b=2");
}

#[test]
fn target_url_refuses_unreadable_base() {
    assert_eq!(
        build_target_url("not a url", "/a", None),
        Err(TargetUrlError::UnreadableBase)
    );
}

#[test]
fn target_url_refuses_oversized_input() {
    let long_path = "a".repeat(URL_INPUT_LIMIT);
    assert_eq!(
        build_target_url("https://h.example/", &long_path, None),
        Err(TargetUrlError::TooLong)
    );
    let long_query = "q".repeat(URL_INPUT_LIMIT);
    assert_eq!(
        build_target_url("https://h.example/", "/a", Some(&long_query)),
        Err(TargetUrlError::TooLong)
    );
    let path = "b".repeat(1000);
    let out = build_target_url("https://h.example/", &path, None).expect("fits");
    assert_eq!(out.len(), "https://h.example/".len() + 1000);
}

#[test]
fn merge_paths_cases() {
    assert_eq!(merge_paths("", ""), "/");
    assert_eq!(merge_paths("", "/a"), "/a");
    assert_eq!(merge_paths("/api", ""), "/api/");
    assert_eq!(merge_paths("/api//", "//v1"), "/api/v1");
    assert_eq!(merge_paths("/api", "/v1"), merge_paths("/api/", "v1"));
}

#[test]
fn xff_without_usable_chain_is_the_peer() {
    assert_eq!(append_forwarded_for(None, "9.9.9.9".to_string()), "9.9.9.9");
    assert_eq!(append_forwarded_for(Some(b" \t "), "9.9.9.9".to_string()), "9.9.9.9");
    assert_eq!(append_forwarded_for(Some(b""), "::1".to_string()), "::1");
    assert_eq!(
        append_forwarded_for(Some(b" 1.1.1.1 "), "2.2.2.2".to_string()),
        " 1.1.1.1 , 2.2.2.2"
    );
    assert_eq!(
        append_forwarded_for(Some(b"1.1.1.1\x80"), "2.2.2.2".to_string()),
        "2.2.2.2"
    );
    assert_eq!(
        append_forwarded_for(Some(b"1.1.1.1\x7f"), "2.2.2.2".to_string()),
        "2.2.2.2"
    );
    let raw = HeaderValue::from_bytes(b"10.0.0.1,\t10.0.0.2").expect("header");
    assert_eq!(
        append_forwarded_for(Some(raw.as_bytes()), "3.3.3.3".to_string()),
        "10.0.0.1,\t10.0.0.2, 3.3.3.3"
    );
}

#[test]
fn hop_by_hop_names_ignore_case() {
    for name in [
        "connection",
        "Keep-Alive",
        "PROXY-AUTHENTICATE",
        "proxy-authorization",
        "TE",
        "trailer",
        "Transfer-Encoding",
        "upgrade",
    ] {
        assert!(is_hop_by_hop_header(name), "{name}");
    }
    assert!(!is_hop_by_hop_header("content-type"));
    assert!(!is_hop_by_hop_header("host"));
    assert!(!is_hop_by_hop_header("tee"));
}

#[test]
fn request_and_response_header_forwarding() {
    assert!(!forward_request_header("host"));
    assert!(!forward_request_header("transfer-encoding"));
    assert!(forward_request_header("authorization"));
    assert!(forward_request_header("connection-id"));
    assert!(!forward_response_header("connection"));
    assert!(!forward_response_header("upgrade"));
    assert!(forward_response_header("host"));
    assert!(forward_response_header("content-type"));
}

#[test]
fn draining_keeps_first_error() {
    let outcomes: Vec<Result<(), &str>> = vec![Ok(()), Err("first"), Ok(()), Err("second")];
    let mut first = None;
    for o in outcomes {
        first = drain_step(first, o);
    }
    assert_eq!(first, Some("first"));

    let mut first: Option<&str> = None;
    for o in [Ok(()), Ok(())] {
        first = drain_step(first, o);
    }
    assert_eq!(first, None);
}

#[test]
fn first_exit_causes() {
    assert!(matches!(first_exit_cause::<&str>(Some(Ok(()))), ExitCause::Unexpected));
    assert!(matches!(first_exit_cause(Some(Err("boom"))), ExitCause::Failed("boom")));
    assert!(matches!(first_exit_cause::<&str>(None), ExitCause::NoTasks));
}

#[test]
fn header_value_validity() {
    assert!(is_valid_header_value("xxx.domain.com"));
    assert!(is_valid_header_value("a\tb ~"));
    assert!(is_valid_header_value("caf\u{e9}"));
    assert!(is_valid_header_value(""));
    assert!(!is_valid_header_value("a\nb"));
    assert!(!is_valid_header_value("a\u{7f}"));
    assert!(!is_valid_header_value("\0"));
    for s in ["ok.example", "bad\rvalue", "tab\tok"] {
        assert_eq!(is_valid_header_value(s), HeaderValue::from_str(s).is_ok());
    }
}
