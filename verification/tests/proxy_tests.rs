use backend_proxy::credential::AuthContext;
use backend_proxy::credential::Credential;
use backend_proxy::credential::CredentialError;
use backend_proxy::credential::StoreError;
use backend_proxy::credential::account_id_in;
use backend_proxy::credential::decode_jwt_payload;
use backend_proxy::dispatch::dispatch_step;
use backend_proxy::dispatch::select_upstream_body;
use backend_proxy::dispatch::Action;
use backend_proxy::dispatch::Event;
use backend_proxy::dispatch::Phase;
use backend_proxy::headers::build_upstream_headers;
use backend_proxy::headers::compose_outbound;
use backend_proxy::headers::forward_request_headers;
use backend_proxy::headers::forward_response_headers;
use backend_proxy::headers::host_header_for;
use backend_proxy::json::Json;
use backend_proxy::redact::redact_header_pair;
use backend_proxy::redact::truncate_str;
use backend_proxy::relay::is_event_stream;
use backend_proxy::relay::relay_chunk;
use backend_proxy::relay::Capture;
use backend_proxy::router::Method;
use backend_proxy::router::Router;

fn s(text: &str) -> String {
    String::from(text)
}

fn run(events: &[Event]) -> Vec<Action> {
    let mut phase = Phase::Routing;
    let mut actions = Vec::new();
    for e in events {
        let (next, action) = dispatch_step(phase, e);
        phase = next;
        actions.push(action);
    }
    actions
}

fn reply_actions(actions: &[Action]) -> Vec<Action> {
    actions
        .iter()
        .copied()
        .filter(|a| {
            matches!(
                a,
                Action::Respond403 | Action::RespondLocalError | Action::RelayFirst | Action::RelayRetry
            )
        })
        .collect()
}

#[test]
fn route_table_matches_exactly() {
    let router = Router::new("https://chatgpt.com/backend-api/codex").unwrap();
    assert!(router.match_route(&Method::Get, "/v1/responses").is_none());
    assert!(router.match_route(&Method::Post, "/v1/other").is_none());
    let route = router.match_route(&Method::Post, "/v1/responses").unwrap();
    assert_eq!(route.upstream_url, "https://chatgpt.com/backend-api/codex/responses");
}

#[test]
fn trailing_slash_makes_no_double_slash() {
    let router = Router::new("https://chatgpt.com/backend-api/codex///").unwrap();
    let route = router.match_route(&Method::Post, "/v1/responses").unwrap();
    assert_eq!(route.upstream_url, "https://chatgpt.com/backend-api/codex/responses");
}

#[test]
fn empty_base_url_is_rejected() {
    assert!(Router::new("").is_err());
    assert!(Router::new("   ").is_err());
    assert!(Router::new(" /// ").is_err());
}

#[test]
fn sensitive_and_hop_by_hop_headers_are_not_forwarded() {
    let inbound = vec![
        (s("Authorization"), s("Bearer abc")),
        (s("Connection"), s("keep-alive")),
        (s("Host"), s("localhost:8000")),
        (s("Content-Length"), s("42")),
        (s("X-Custom"), s("value")),
        (s("Accept"), s("application/json")),
    ];
    let out = forward_request_headers(&inbound);
    let names: Vec<&str> = out.iter().map(|p| p.0.as_str()).collect();
    assert_eq!(names, vec!["x-custom", "accept"]);
    assert_eq!(out[0].1, "value");
}

#[test]
fn malformed_header_values_are_dropped_silently() {
    let inbound = vec![(s("X-Bad"), s("bad\u{1}value")), (s("X-Good"), s("good"))];
    let out = forward_request_headers(&inbound);
    assert_eq!(out.len(), 1);
    assert_eq!(out[0].0, "x-good");
}

#[test]
fn upstream_headers_carry_bearer_and_account() {
    let h = build_upstream_headers("tok123", &Some(s("acct-7"))).unwrap();
    assert_eq!(h.len(), 2);
    assert_eq!(h[0].0, "authorization");
    assert_eq!(h[0].1, "Bearer tok123");
    assert_eq!(h[1].0, "chatgpt-account-id");
    assert_eq!(h[1].1, "acct-7");
    let h2 = build_upstream_headers("tok123", &None).unwrap();
    assert_eq!(h2.len(), 1);
    let bad = build_upstream_headers("to\nk", &None);
    assert!(bad.is_err());
}

#[test]
fn forced_upstream_headers_win_over_forwarded_ones() {
    let auth = vec![(s("authorization"), s("Bearer tok"))];
    let forwarded = vec![
        (s("openai-beta"), s("from-client")),
        (s("accept"), s("application/json")),
        (s("x-other"), s("kept")),
    ];
    let out = compose_outbound(auth.clone(), &forwarded, Some(s("chatgpt.com")), true);
    let pairs: Vec<(&str, &str)> = out.iter().map(|p| (p.0.as_str(), p.1.as_str())).collect();
    assert_eq!(
        pairs,
        vec![
            ("authorization", "Bearer tok"),
            ("host", "chatgpt.com"),
            ("x-other", "kept"),
            ("openai-beta", "responses=experimental"),
            ("accept", "text/event-stream"),
        ]
    );
    let out2 = compose_outbound(auth, &forwarded, None, false);
    let pairs2: Vec<(&str, &str)> = out2.iter().map(|p| (p.0.as_str(), p.1.as_str())).collect();
    assert_eq!(
        pairs2,
        vec![
            ("authorization", "Bearer tok"),
            ("accept", "application/json"),
            ("x-other", "kept"),
            ("openai-beta", "responses=experimental"),
        ]
    );
}

#[test]
fn response_framing_headers_are_not_copied_back() {
    let upstream = vec![
        (s("content-length"), s("10")),
        (s("transfer-encoding"), s("chunked")),
        (s("connection"), s("close")),
        (s("content-type"), s("application/json")),
        (s("x-request-id"), s("abc")),
    ];
    let out = forward_response_headers(&upstream);
    let names: Vec<&str> = out.iter().map(|p| p.0.as_str()).collect();
    assert_eq!(names, vec!["content-type", "x-request-id"]);
}

#[test]
fn host_header_is_derived_from_the_upstream_url() {
    assert_eq!(
        host_header_for("https://chatgpt.com/backend-api/codex").as_deref(),
        Some("chatgpt.com")
    );
    assert_eq!(host_header_for("not a url"), None);
}

#[test]
fn refresh_and_retry_shows_client_only_the_retry() {
    let actions = run(&[
        Event::RouteMatched,
        Event::HeadersOk,
        Event::TranslationOk,
        Event::UpstreamStatus(401),
        Event::RefreshOk,
        Event::UpstreamStatus(200),
    ]);
    assert_eq!(
        actions,
        vec![
            Action::BuildHeaders,
            Action::TranslateBody,
            Action::SendFirst,
            Action::Refresh,
            Action::SendRetry,
            Action::RelayRetry,
        ]
    );
    assert_eq!(reply_actions(&actions), vec![Action::RelayRetry]);
}

#[test]
fn failing_refresh_relays_the_original_response() {
    let actions = run(&[
        Event::RouteMatched,
        Event::HeadersOk,
        Event::TranslationOk,
        Event::UpstreamStatus(401),
        Event::RefreshErr,
    ]);
    assert_eq!(actions.last(), Some(&Action::RelayFirst));
    assert_eq!(reply_actions(&actions), vec![Action::RelayFirst]);
}

#[test]
fn a_second_unauthorized_is_not_retried() {
    let actions = run(&[
        Event::RouteMatched,
        Event::HeadersOk,
        Event::TranslationSkipped,
        Event::UpstreamStatus(401),
        Event::RefreshOk,
        Event::UpstreamStatus(401),
    ]);
    assert_eq!(actions.last(), Some(&Action::RelayRetry));
    let refreshes = actions.iter().filter(|a| **a == Action::Refresh).count();
    assert_eq!(refreshes, 1);
}

#[test]
fn a_failed_translation_forwards_the_original_bytes() {
    let original = b"{\"input\":[]}".to_vec();
    let (chosen, event) = select_upstream_body(original.clone(), None);
    assert_eq!(chosen, original);
    assert_eq!(event, Event::TranslationSkipped);
    let (replaced, event2) = select_upstream_body(original, Some(b"{}".to_vec()));
    assert_eq!(replaced.as_slice(), b"{}".as_slice());
    assert_eq!(event2, Event::TranslationOk);
}

#[test]
fn unmatched_routes_get_403_and_nothing_is_forwarded() {
    let actions = run(&[Event::RouteMissed]);
    assert_eq!(actions, vec![Action::Respond403]);
}

#[test]
fn header_failure_is_a_local_error() {
    let actions = run(&[Event::RouteMatched, Event::HeadersErr]);
    assert_eq!(actions.last(), Some(&Action::RespondLocalError));
}

#[test]
fn non_401_statuses_relay_directly() {
    let actions = run(&[
        Event::RouteMatched,
        Event::HeadersOk,
        Event::TranslationOk,
        Event::UpstreamStatus(500),
    ]);
    assert_eq!(actions.last(), Some(&Action::RelayFirst));
}

#[test]
fn relay_forwards_bytes_and_captures_them() {
    let mut cap = Capture::new(true);
    let mut written: Vec<u8> = Vec::new();
    for chunk in [b"hel".as_slice(), b"lo ".as_slice(), b"world".as_slice()] {
        let out = relay_chunk(&mut cap, chunk);
        assert_eq!(out.as_slice(), chunk);
        written.extend_from_slice(&out);
    }
    assert_eq!(written.as_slice(), b"hello world".as_slice());
    assert_eq!(cap.data.as_slice(), b"hello world".as_slice());
}

#[test]
fn disabled_capture_stays_empty() {
    let mut cap = Capture::new(false);
    let out = relay_chunk(&mut cap, b"bytes");
    assert_eq!(out.as_slice(), b"bytes".as_slice());
    assert!(cap.data.is_empty());
}

#[test]
fn event_stream_content_types_are_recognized() {
    assert!(is_event_stream("text/event-stream"));
    assert!(is_event_stream("Text/Event-Stream; charset=utf-8"));
    assert!(!is_event_stream("application/json"));
}

#[test]
fn jwt_payload_is_decoded_from_base64url() {
    assert_eq!(decode_jwt_payload("head.aGVsbG8.sig").as_deref(), Some(b"hello".as_slice()));
    assert_eq!(decode_jwt_payload("no-dots"), None);
    assert_eq!(decode_jwt_payload("two.parts"), None);
    assert_eq!(decode_jwt_payload("a..c"), None);
    assert_eq!(decode_jwt_payload("a.!!!.c"), None);
}

#[test]
fn extra_jwt_segments_are_tolerated() {
    assert_eq!(
        decode_jwt_payload("head.aGVsbG8.sig.extra").as_deref(),
        Some(b"hello".as_slice())
    );
}

#[test]
fn account_id_is_read_from_the_payload() {
    let payload = Json::Obj(vec![(
        s("https://api.openai.com/auth"),
        Json::Obj(vec![(s("chatgpt_account_id"), Json::Str(s("acct-42")))]),
    )]);
    assert_eq!(account_id_in(&payload).as_deref(), Some("acct-42"));
    let empty = Json::Obj(vec![]);
    assert_eq!(account_id_in(&empty), None);
}

#[test]
fn credential_cache_caches_and_maps_store_errors() {
    let cred = Credential {
        access_token: s("tok"),
        account_id: None,
        id_token: s("a.b.c"),
    };
    let mut ctx = AuthContext::new(None);
    assert!(ctx.needs_load());
    assert!(matches!(
        ctx.load_or_get(Err(StoreError::NotFound)),
        Err(CredentialError::CredentialMissing)
    ));
    assert!(matches!(
        ctx.load_or_get(Err(StoreError::Unreadable)),
        Err(CredentialError::CredentialStoreUnreadable)
    ));
    let got = match ctx.load_or_get(Ok(cred)) {
        Ok(c) => c,
        Err(_) => panic!("loading must succeed"),
    };
    assert_eq!(got.access_token, "tok");
    assert!(!ctx.needs_load());
    let cached = ctx.load_or_get(Err(StoreError::NotFound)).unwrap();
    assert_eq!(cached.access_token, "tok");
}

#[test]
fn refresh_replaces_the_credential_wholesale() {
    let mut ctx = AuthContext::new(Some(s("/tmp/home")));
    let first = Credential {
        access_token: s("old"),
        account_id: None,
        id_token: s(""),
    };
    ctx.load_or_get(Ok(first)).unwrap();
    let fresh = Credential {
        access_token: s("new"),
        account_id: Some(s("acct")),
        id_token: s(""),
    };
    assert_eq!(ctx.try_refresh(Ok(fresh)), Ok(()));
    let (token, account) = ctx.bearer_and_optional_account_id(&None).unwrap();
    assert_eq!(token, "new");
    assert_eq!(account.as_deref(), Some("acct"));
    assert!(ctx.is_chatgpt(&None));
    assert_eq!(
        ctx.try_refresh(Err(StoreError::Unreadable)),
        Err(CredentialError::RefreshFailed)
    );
    let (token2, _) = ctx.bearer_and_optional_account_id(&None).unwrap();
    assert_eq!(token2, "new", "a failed refresh leaves the cache as it was");
}

#[test]
fn derived_account_id_stands_in_when_no_direct_one_exists() {
    let mut ctx = AuthContext::new(None);
    let cred = Credential {
        access_token: s("tok"),
        account_id: None,
        id_token: s(""),
    };
    ctx.load_or_get(Ok(cred)).unwrap();
    let (_, account) = ctx.bearer_and_optional_account_id(&Some(s("derived"))).unwrap();
    assert_eq!(account.as_deref(), Some("derived"));
    assert!(
        ctx.is_chatgpt(&Some(s("derived"))),
        "a derived identifier makes the account resolvable"
    );
    assert!(!ctx.is_chatgpt(&None));
}

#[test]
fn authorization_values_are_redacted_entirely() {
    let (name, value) = redact_header_pair("Authorization", "Bearer secret");
    assert_eq!(name, "Authorization");
    assert_eq!(value, "<redacted>");
}

#[test]
fn account_id_header_is_masked_but_for_its_tail() {
    let (_, value) = redact_header_pair("ChatGPT-Account-Id", "abcdefghijkl");
    assert_eq!(value, "********ijkl");
    let (_, short) = redact_header_pair("chatgpt-account-id", "abcd");
    assert_eq!(short, "****");
}

#[test]
fn long_values_are_truncated_with_a_mark() {
    let long = "x".repeat(300);
    let (_, value) = redact_header_pair("X-Other", &long);
    assert!(value.starts_with(&"x".repeat(200)));
    assert!(value.ends_with("… (truncated)"));
    assert_eq!(truncate_str("hello", 10), "hello");
    assert_eq!(truncate_str("hello", 3), "hel… (truncated)");
}
