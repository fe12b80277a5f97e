use margo_fetch::http::HttpResponse;
use margo_fetch::source_resolver::{
    follow_get, registry_dl_url_in, registry_dl_url_of, FollowStep, JsonMember,
    RemoteRegistrySourceResolver, ResolutionError, ResolveEvent, ResolveStep,
};
use margo_fetch::Crate;

const REGISTRY: &str = "https://github.com/rust-lang/crates.io-index";
const CONFIG: &[u8] = br#"{"dl": "https://crates.io/api/v1/crates", "api": "https://crates.io"}"#;

fn response(status: u16, location: Option<&str>, body: &[u8]) -> HttpResponse {
    HttpResponse { status, location: location.map(|l| l.to_string()), body: body.to_vec() }
}

fn ok(body: &[u8]) -> Option<HttpResponse> {
    Some(response(200, None, body))
}

fn foo() -> Crate<'static, 'static, 'static, 'static> {
    Crate::new("foo", "1.0.0", "src", Some("ab"))
}

#[test]
fn first_resolution_asks_for_the_config_document() {
    let mut resolver = RemoteRegistrySourceResolver::new(REGISTRY);
    assert_eq!(
        resolver.resolve_crate(&foo(), ResolveEvent::Start),
        ResolveStep::FetchConfig(
            "https://github.com/rust-lang/crates.io-index/raw/master/config.json".to_string()
        )
    );
}

#[test]
fn config_document_gives_the_link() {
    let mut resolver = RemoteRegistrySourceResolver::new(REGISTRY);
    assert_eq!(
        resolver.resolve_crate(&foo(), ResolveEvent::Config(ok(CONFIG))),
        ResolveStep::Resolved("https://crates.io/api/v1/crates/foo/1.0.0/download".to_string())
    );
}

#[test]
fn config_document_gives_the_base_url() {
    let mut resolver = RemoteRegistrySourceResolver::new(REGISTRY);
    assert_eq!(
        resolver.get_registry_dl_url(ResolveEvent::Config(ok(CONFIG))),
        ResolveStep::Resolved("https://crates.io/api/v1/crates".to_string())
    );
    assert_eq!(
        resolver.get_registry_dl_url(ResolveEvent::Start),
        ResolveStep::Resolved("https://crates.io/api/v1/crates".to_string())
    );
}

#[test]
fn later_resolutions_ask_for_nothing() {
    let mut resolver = RemoteRegistrySourceResolver::new(REGISTRY);
    let first = resolver.resolve_crate(&foo(), ResolveEvent::Start);
    assert!(matches!(first, ResolveStep::FetchConfig(_)));
    let done = resolver.resolve_crate(&foo(), ResolveEvent::Config(ok(CONFIG)));
    assert!(matches!(done, ResolveStep::Resolved(_)));

    let bar = Crate::new("bar", "2.0.0", "src", Some("cd"));
    assert_eq!(
        resolver.resolve_crate(&bar, ResolveEvent::Start),
        ResolveStep::Resolved("https://crates.io/api/v1/crates/bar/2.0.0/download".to_string())
    );
    assert_eq!(
        resolver.resolve_crate(&foo(), ResolveEvent::Start),
        ResolveStep::Resolved("https://crates.io/api/v1/crates/foo/1.0.0/download".to_string())
    );
}

#[test]
fn first_base_url_is_kept() {
    let mut resolver = RemoteRegistrySourceResolver::new(REGISTRY);
    resolver.resolve_crate(&foo(), ResolveEvent::Config(ok(br#"{"dl": "https://one"}"#)));
    assert_eq!(
        resolver.resolve_crate(&foo(), ResolveEvent::Config(ok(br#"{"dl": "https://two"}"#))),
        ResolveStep::Resolved("https://one/foo/1.0.0/download".to_string())
    );
    assert_eq!(
        resolver.resolve_crate(&foo(), ResolveEvent::Redirected(ok(br#"{"dl": "https://three"}"#))),
        ResolveStep::Resolved("https://one/foo/1.0.0/download".to_string())
    );
    assert_eq!(
        resolver.resolve_crate(&foo(), ResolveEvent::Start),
        ResolveStep::Resolved("https://one/foo/1.0.0/download".to_string())
    );
}

#[test]
fn failed_resolution_keeps_the_resolver_unresolved() {
    let mut resolver = RemoteRegistrySourceResolver::new(REGISTRY);
    assert_eq!(
        resolver.resolve_crate(&foo(), ResolveEvent::Config(None)),
        ResolveStep::Failed(ResolutionError::Transport)
    );
    assert_eq!(
        resolver.resolve_crate(&foo(), ResolveEvent::Config(ok(b"not json"))),
        ResolveStep::Failed(ResolutionError::MalformedConfig)
    );
    assert!(matches!(
        resolver.resolve_crate(&foo(), ResolveEvent::Start),
        ResolveStep::FetchConfig(_)
    ));
}

#[test]
fn redirection_is_followed_once() {
    let mut resolver = RemoteRegistrySourceResolver::new(REGISTRY);
    let redirect = response(302, Some("https://raw.example.org/config.json"), b"moved");
    assert_eq!(
        resolver.resolve_crate(&foo(), ResolveEvent::Config(Some(redirect))),
        ResolveStep::FollowRedirect("https://raw.example.org/config.json".to_string())
    );
    assert_eq!(
        resolver.resolve_crate(&foo(), ResolveEvent::Redirected(ok(CONFIG))),
        ResolveStep::Resolved("https://crates.io/api/v1/crates/foo/1.0.0/download".to_string())
    );
}

#[test]
fn second_redirection_is_not_followed() {
    let mut resolver = RemoteRegistrySourceResolver::new(REGISTRY);
    let again = response(302, Some("https://elsewhere.example.org/"), b"moved again");
    assert_eq!(
        resolver.resolve_crate(&foo(), ResolveEvent::Redirected(Some(again))),
        ResolveStep::Failed(ResolutionError::MalformedConfig)
    );
    let with_body = response(301, Some("https://elsewhere.example.org/"), CONFIG);
    assert_eq!(
        resolver.resolve_crate(&foo(), ResolveEvent::Redirected(Some(with_body))),
        ResolveStep::Resolved("https://crates.io/api/v1/crates/foo/1.0.0/download".to_string())
    );
}

#[test]
fn transport_failure_fails_the_resolution() {
    let mut resolver = RemoteRegistrySourceResolver::new(REGISTRY);
    assert_eq!(
        resolver.resolve_crate(&foo(), ResolveEvent::Config(None)),
        ResolveStep::Failed(ResolutionError::Transport)
    );
    assert_eq!(
        resolver.resolve_crate(&foo(), ResolveEvent::Redirected(None)),
        ResolveStep::Failed(ResolutionError::Transport)
    );
}

#[test]
fn follow_get_follows_a_redirection_that_names_a_location() {
    for status in [300, 301, 302, 303, 307, 308, 399] {
        assert_eq!(
            follow_get(Some(response(status, Some("https://there"), b"body"))),
            FollowStep::Follow("https://there".to_string())
        );
    }
}

#[test]
fn follow_get_takes_the_body_of_any_other_response() {
    for status in [100, 200, 204, 299, 400, 404, 500, 599] {
        assert_eq!(
            follow_get(Some(response(status, Some("https://there"), b"body"))),
            FollowStep::Body(b"body".to_vec())
        );
    }
    assert_eq!(follow_get(Some(response(302, None, b"body"))), FollowStep::Body(b"body".to_vec()));
    assert_eq!(follow_get(Some(response(200, None, b""))), FollowStep::Body(vec![]));
}

#[test]
fn follow_get_fails_with_the_transport() {
    assert_eq!(follow_get(None), FollowStep::Failed);
}

#[test]
fn base_url_is_the_text_of_the_member() {
    assert_eq!(
        registry_dl_url_of(Some(JsonMember::Text("https://dl".to_string()))),
        Ok("https://dl".to_string())
    );
    assert_eq!(registry_dl_url_of(Some(JsonMember::Text(String::new()))), Ok(String::new()));
}

#[test]
fn base_url_needs_a_string_member() {
    assert_eq!(registry_dl_url_of(None), Err(ResolutionError::MalformedConfig));
    for member in [
        JsonMember::Absent,
        JsonMember::Null,
        JsonMember::Bool,
        JsonMember::Number,
        JsonMember::Array,
        JsonMember::Object,
    ] {
        assert_eq!(registry_dl_url_of(Some(member)), Err(ResolutionError::MissingDownloadUrl));
    }
}

#[test]
fn base_url_is_read_from_the_document() {
    assert_eq!(registry_dl_url_in(CONFIG), Ok("https://crates.io/api/v1/crates".to_string()));
    assert_eq!(
        registry_dl_url_in("{\"dl\":\"a\\\"b\u{e9}\"}".as_bytes()),
        Ok("a\"b\u{e9}".to_string())
    );
    assert_eq!(registry_dl_url_in(br#"{"dl":"\u00e9"}"#), Ok("\u{e9}".to_string()));
    assert_eq!(registry_dl_url_in(b" {\"dl\" : \"\"} \n"), Ok(String::new()));
}

#[test]
fn document_without_a_string_under_dl_gives_no_base_url() {
    for document in [
        &br#"{}"#[..],
        br#"{"api": "https://crates.io"}"#,
        br#"{"DL": "https://dl"}"#,
        br#"{"dl": null}"#,
        br#"{"dl": true}"#,
        br#"{"dl": 7}"#,
        br#"{"dl": 1.5}"#,
        br#"{"dl": ["https://dl"]}"#,
        br#"{"dl": {"url": "https://dl"}}"#,
        br#"["dl"]"#,
        br#""dl""#,
        br#"null"#,
        br#"7"#,
    ] {
        assert_eq!(
            registry_dl_url_in(document),
            Err(ResolutionError::MissingDownloadUrl),
            "{:?}",
            String::from_utf8_lossy(document)
        );
    }
}

#[test]
fn document_that_is_not_json_gives_no_base_url() {
    for document in [
        &b""[..],
        b"not json",
        b"{",
        br#"{"dl": "https://dl""#,
        br#"{"dl": "https://dl"} trailing"#,
        br#"{dl: "https://dl"}"#,
        b"{\"dl\": \"\xff\"}",
        b"<html></html>",
    ] {
        assert_eq!(
            registry_dl_url_in(document),
            Err(ResolutionError::MalformedConfig),
            "{:?}",
            String::from_utf8_lossy(document)
        );
    }
}

#[test]
fn link_is_made_of_base_url_name_and_version() {
    let resolver = RemoteRegistrySourceResolver::new(REGISTRY);
    assert_eq!(
        resolver.resolve_crate_download_link(&foo(), "https://dl".to_string()),
        "https://dl/foo/1.0.0/download"
    );
    assert_eq!(
        resolver.resolve_crate_download_link(&Crate::new("", "", "", None), String::new()),
        "///download"
    );
}
