//! Calls to the upstream.

use std::collections::HashMap;

use antigravity_upstream::auxiliary::{AuxiliaryCall, AuxiliaryStep};
use antigravity_upstream::fallback::{CallStep, FallbackAttemptLog, Reply, UpstreamCall};
use antigravity_upstream::headers::{build_headers, usable_user_agent, Egress};
use antigravity_upstream::json::{body_bytes, body_project, empty_body, wraps_request};
use antigravity_upstream::session::{derive_session_uuid, format_uuid};
use antigravity_upstream::status::HttpStatus;
use antigravity_upstream::upstream::{
    default_build_step, ClientAction, DefaultBuild, DefaultBuildStep, UpstreamClient,
};
use serde_json::Value;

const DAILY: &str = "https://daily-cloudcode-pa.googleapis.com/v1internal";
const SANDBOX: &str = "https://daily-cloudcode-pa.sandbox.googleapis.com/v1internal";
const PROD: &str = "https://cloudcode-pa.googleapis.com/v1internal";

#[test]
fn test_build_url() {
    let base_url = "https://cloudcode-pa.googleapis.com/v1internal";

    let url1 = UpstreamClient::build_url(base_url, "generateContent", None);
    assert_eq!(
        url1,
        "https://cloudcode-pa.googleapis.com/v1internal:generateContent"
    );

    let url2 = UpstreamClient::build_url(base_url, "streamGenerateContent", Some("alt=sse"));
    assert_eq!(
        url2,
        "https://cloudcode-pa.googleapis.com/v1internal:streamGenerateContent?alt=sse"
    );
}

// ----- Statuses -----

fn status(code: u16) -> HttpStatus {
    HttpStatus::new(code).unwrap()
}

#[test]
fn statuses_agree_with_the_http_crate() {
    for code in 0..=1100u16 {
        match reqwest::StatusCode::from_u16(code) {
            Ok(s) => {
                assert_eq!(status(code).as_u16(), code);
                assert_eq!(status(code).is_success(), s.is_success());
                assert_eq!(
                    UpstreamClient::should_try_next_endpoint(status(code)),
                    code == 408 || code == 404 || s.is_server_error()
                );
                assert_eq!(status(code).text(), s.to_string());
            }
            Err(_) => assert!(HttpStatus::new(code).is_none()),
        }
    }
}

// ----- Sessions -----

#[test]
fn sessions_have_their_own_identifiers() {
    assert_eq!(derive_session_uuid("conversation-1"), "fcbe824c-c0e1-442c-a531-766a97ab3199");
    assert_eq!(derive_session_uuid(""), "11cab252-f6e0-4bb0-8243-6d2960d1c9af");
    assert_eq!(derive_session_uuid("sitzung-ß"), "e281c577-0d4c-4b7b-a1ff-3a1ade944067");
}

#[test]
fn identifiers_are_random_uuids() {
    for fill in [0u8, 1, 0x7f, 0x80, 0xff] {
        let id = format_uuid(&vec![fill; 32]);
        assert_eq!(id.len(), 36);
        for (i, c) in id.chars().enumerate() {
            match i {
                8 | 13 | 18 | 23 => assert_eq!(c, '-'),
                14 => assert_eq!(c, '4'),
                19 => assert!("89ab".contains(c)),
                _ => assert!(c.is_ascii_hexdigit() && !c.is_ascii_uppercase()),
            }
        }
    }
    let bytes: Vec<u8> = (0..16).map(|i| i * 16 + i).collect();
    assert_eq!(format_uuid(&bytes), "00112233-4455-4677-8899-aabbccddeeff");
}

// ----- Bodies -----

fn body(json: &str) -> Value {
    serde_json::from_str(json).unwrap()
}

#[test]
fn bodies_name_their_project() {
    assert_eq!(body_project(&body(r#"{"project":"p1","x":1}"#)), Some("p1".to_string()));
    assert_eq!(body_project(&body(r#"{"project":1}"#)), None);
    assert_eq!(body_project(&body(r#"{"Project":"p"}"#)), None);
    assert_eq!(body_project(&body(r#"["project"]"#)), None);
    assert_eq!(body_project(&empty_body()), None);
    assert_eq!(body_bytes(&empty_body()), b"{}");
    assert_eq!(body_bytes(&body(r#"{ "a" : [ 1, "ß" ] }"#)), r#"{"a":[1,"ß"]}"#.as_bytes());
}

#[test]
fn payloads_are_found() {
    assert!(wraps_request(&body(r#"{"request":{}}"#)));
    assert!(wraps_request(&body(r#"{"a":1,"request":null}"#)));
    assert!(!wraps_request(&body(r#"{"Request":{}}"#)));
    assert!(!wraps_request(&body(r#"["request"]"#)));
    assert!(!wraps_request(&body(r#""request""#)));
    assert!(!wraps_request(&empty_body()));
}

// ----- Headers -----

fn egress() -> Egress {
    Egress {
        user_agent: "antigravity/4.8.1".to_string(),
        client_version: "4.8.1".to_string(),
        machine_id: Some("machine".to_string()),
        session_id: "own-session".to_string(),
    }
}

fn pairs(list: &[(&str, &str)]) -> Vec<(String, String)> {
    list.iter().map(|(k, v)| (k.to_string(), v.to_string())).collect()
}

fn headers(
    method: &str,
    egress: &Egress,
    project: Option<&str>,
    extra: &[(&str, &str)],
) -> HashMap<String, String> {
    let map = build_headers(method, "tok", egress, project, &pairs(extra)).unwrap();
    map.iter()
        .map(|(k, v)| (k.as_str().to_string(), String::from_utf8(v.as_bytes().to_vec()).unwrap()))
        .collect()
}

fn expected(list: &[(&str, &str)]) -> HashMap<String, String> {
    list.iter().map(|(k, v)| (k.to_string(), v.to_string())).collect()
}

#[test]
fn requests_say_who_sends_them() {
    assert_eq!(
        headers("loadCodeAssist", &egress(), None, &[]),
        expected(&[
            ("content-type", "application/json"),
            ("authorization", "Bearer tok"),
            ("user-agent", "antigravity/4.8.1"),
            ("x-client-name", "antigravity"),
            ("x-client-version", "4.8.1"),
            ("x-machine-id", "machine"),
            ("x-vscode-sessionid", "own-session"),
        ])
    );
    let odd = Egress {
        user_agent: "bad\nagent".to_string(),
        client_version: "bad\u{7f}".to_string(),
        machine_id: None,
        session_id: "bad\0".to_string(),
    };
    assert_eq!(
        headers("loadCodeAssist", &odd, None, &[]),
        expected(&[
            ("content-type", "application/json"),
            ("authorization", "Bearer tok"),
            ("user-agent", "antigravity"),
            ("x-client-name", "antigravity"),
        ])
    );
    assert_eq!(usable_user_agent("a b\tc ß"), "a b\tc ß");
    assert_eq!(usable_user_agent("a\rb"), "antigravity");
}

#[test]
fn tokens_that_cannot_be_sent_are_refused() {
    let err = build_headers("m", "a\nb", &egress(), None, &vec![]).unwrap_err();
    assert_eq!(err, "failed to parse header value");
}

#[test]
fn the_session_of_a_conversation_is_sent_hashed() {
    let h = headers("m", &egress(), None, &[("x-session-id", "conversation-1")]);
    assert_eq!(h["x-vscode-sessionid"], "fcbe824c-c0e1-442c-a531-766a97ab3199");
    assert_eq!(h["x-session-id"], "conversation-1");
    // The name counts with its case.
    let h = headers("m", &egress(), None, &[("X-Session-Id", "conversation-1")]);
    assert_eq!(h["x-vscode-sessionid"], "own-session");
}

#[test]
fn callers_cannot_change_the_user_agent() {
    let h = headers(
        "m",
        &egress(),
        None,
        &[("user-agent", "evil"), ("User-Agent", "evil"), ("USER-AGENT", "evil")],
    );
    assert_eq!(h["user-agent"], "antigravity/4.8.1");
}

#[test]
fn other_headers_are_passed_through() {
    let h = headers(
        "m",
        &egress(),
        None,
        &[
            ("Anthropic-Beta", "x"),
            ("bad name", "x"),
            ("", "x"),
            ("ok", "bad\nvalue"),
            ("umläut", "x"),
            ("X-Client-Name", "other"),
            ("twice", "1"),
            ("TWICE", "2"),
        ],
    );
    assert_eq!(h["anthropic-beta"], "x");
    assert_eq!(h["x-client-name"], "other");
    assert_eq!(h["twice"], "2");
    assert_eq!(h.len(), 9);
}

#[test]
fn projects_are_charged_except_for_content() {
    let project = |method, project, extra: &[(&str, &str)]| {
        headers(method, &egress(), project, extra).remove("x-goog-user-project")
    };
    let text = |s: &str| Some(s.to_string());
    assert_eq!(project("loadCodeAssist", Some("p1"), &[]), text("p1"));
    for placeholder in ["", "test-project", "project-id", "bad\n"] {
        assert_eq!(project("loadCodeAssist", Some(placeholder), &[]), None);
    }
    assert_eq!(project("loadCodeAssist", None, &[]), None);
    assert_eq!(project("loadCodeAssist", None, &[("x-goog-user-project", "e")]), text("e"));
    for method in ["generateContent", "streamGenerateContent"] {
        assert_eq!(project(method, Some("p1"), &[]), None);
        assert_eq!(project(method, Some("p1"), &[("X-Goog-User-Project", "e")]), None);
    }
}

#[test]
fn many_headers_can_be_passed_through() {
    let extra: Vec<(String, String)> =
        (0..6546).map(|i| (format!("x-h-{}", i), i.to_string())).collect();
    let map = build_headers("m", "tok", &egress(), Some("p1"), &extra).unwrap();
    assert_eq!(map.len(), 6546 + 8);
    assert_eq!(map.get("x-h-6545").unwrap(), "6545");
    // One name, however often.
    let extra: Vec<(String, String)> =
        (0..30000).map(|i| ("x-h".to_string(), i.to_string())).collect();
    let map = build_headers("m", "tok", &egress(), Some("p1"), &extra).unwrap();
    assert_eq!(map.len(), 9);
    assert_eq!(map.get("x-h").unwrap(), "29999");
}

#[test]
fn more_headers_than_a_map_can_hold_are_refused() {
    let extra: Vec<(String, String)> =
        (0..30000).map(|i| (format!("x-h-{}", i), i.to_string())).collect();
    let err = build_headers("m", "tok", &egress(), None, &extra).unwrap_err();
    assert_eq!(err, "max size reached");
    let err = UpstreamClient::call_v1_internal_with_headers(
        "m",
        "tok",
        &body("{}"),
        None,
        &extra,
        &egress(),
    );
    assert_eq!(err.err().unwrap(), "max size reached");
    // The token is looked at first.
    let err = build_headers("m", "\n", &egress(), None, &extra).unwrap_err();
    assert_eq!(err, "failed to parse header value");
}

// ----- Calls -----

fn call(method: &str, json: &str, query: Option<&str>) -> UpstreamCall {
    UpstreamClient::call_v1_internal_with_headers(
        method,
        "tok",
        &body(json),
        query,
        &pairs(&[("anthropic-beta", "x")]),
        &egress(),
    )
    .unwrap()
}

fn sent(step: CallStep<&str>) -> UpstreamCall {
    match step {
        CallStep::Send(call) => call,
        CallStep::Done(_) => panic!("the call is over"),
    }
}

fn over(step: CallStep<&str>) -> Result<(&str, Vec<FallbackAttemptLog>), String> {
    match step {
        CallStep::Send(_) => panic!("the call goes on"),
        CallStep::Done(r) => r.map(|r| (r.response, r.fallback_attempts)),
    }
}

fn answer(code: u16) -> Reply<&'static str> {
    Reply::Response { status: status(code), response: "response" }
}

fn offline() -> Reply<&'static str> {
    Reply::Failed("offline".to_string())
}

fn has_project(call: &UpstreamCall) -> bool {
    call.headers().contains_key("x-goog-user-project")
}

#[test]
fn calls_start_at_the_daily_endpoint() {
    let c = call("streamGenerateContent", r#"{"project":"p1"}"#, Some("alt=sse"));
    assert_eq!(c.url(), format!("{}:streamGenerateContent?alt=sse", DAILY));
    assert_eq!(c.body(), br#"{"project":"p1"}"#);
    assert!(c.is_chunked());
    assert!(!has_project(&c));
    assert_eq!(c.headers().get("anthropic-beta").unwrap(), "x");
    assert!(c.attempts().is_empty());

    let c = call("generateContent", "{}", None);
    assert_eq!(c.url(), format!("{}:generateContent", DAILY));
    assert!(!c.is_chunked());

    let c = UpstreamClient::call_v1_internal("m", "tok", &body("{}"), None, &egress()).unwrap();
    assert!(!c.headers().contains_key("anthropic-beta"));
    let err = UpstreamClient::call_v1_internal("m", "\n", &body("{}"), None, &egress());
    assert_eq!(err.err().unwrap(), "failed to parse header value");
}

#[test]
fn success_ends_a_call_without_attempts() {
    let (response, attempts) = over(call("m", "{}", None).on_reply(answer(200))).unwrap();
    assert_eq!(response, "response");
    assert!(attempts.is_empty());

    let c = sent(call("m", "{}", None).on_reply(offline()));
    let (_, attempts) = over(c.on_reply(answer(204))).unwrap();
    assert!(attempts.is_empty());
}

#[test]
fn endpoints_are_tried_in_order() {
    let c = sent(call("m", "{}", Some("q")).on_reply(answer(503)));
    assert_eq!(c.url(), format!("{}:m?q", SANDBOX));
    assert_eq!(c.attempts().len(), 1);
    let c = sent(c.on_reply(offline()));
    assert_eq!(c.url(), format!("{}:m?q", PROD));
    let (response, attempts) = over(c.on_reply(answer(404))).unwrap();
    assert_eq!(response, "response");
    assert_eq!(attempts.len(), 2);
    assert_eq!(attempts[0].endpoint_url, format!("{}:m?q", DAILY));
    assert_eq!(attempts[0].status, Some(503));
    assert_eq!(
        attempts[0].error,
        format!("Upstream {} returned 503 Service Unavailable", DAILY)
    );
    assert_eq!(attempts[1].endpoint_url, format!("{}:m?q", SANDBOX));
    assert_eq!(attempts[1].status, None);
    assert_eq!(attempts[1].error, format!("HTTP request failed at {}: offline", SANDBOX));
}

#[test]
fn calls_fail_when_no_endpoint_can_be_reached() {
    let c = sent(call("m", "{}", None).on_reply(offline()));
    let c = sent(c.on_reply(answer(408)));
    let err = over(c.on_reply(offline())).unwrap_err();
    assert_eq!(err, format!("HTTP request failed at {}: offline", PROD));
}

#[test]
fn final_statuses_are_not_retried() {
    for code in [400, 401, 403, 429, 301] {
        let (_, attempts) = over(call("m", "{}", None).on_reply(answer(code))).unwrap();
        assert!(attempts.is_empty());
    }
}

#[test]
fn a_forbidden_project_is_taken_off_once() {
    let c = call("m", r#"{"project":"p1"}"#, None);
    assert!(has_project(&c));
    let c = sent(c.on_reply(answer(500)));
    assert!(has_project(&c));
    // The second endpoint forbids it: from the first endpoint again, without the header.
    let c = sent(c.on_reply(answer(403)));
    assert!(!has_project(&c));
    assert_eq!(c.url(), format!("{}:m", DAILY));
    assert!(c.attempts().is_empty());
    assert_eq!(c.body(), br#"{"project":"p1"}"#);
    assert_eq!(c.headers().get("user-agent").unwrap(), "antigravity/4.8.1");
    // Forbidden again, it stays so.
    assert!(over(c.on_reply(answer(403))).is_ok());
}

#[test]
fn calls_make_six_requests_at_most() {
    let mut c = call("m", r#"{"project":"p1"}"#, None);
    let replies = [answer(500), answer(500), answer(403), answer(500), answer(500)];
    for reply in replies {
        c = sent(c.on_reply(reply));
    }
    assert_eq!(c.url(), format!("{}:m", PROD));
    let (_, attempts) = over(c.on_reply(answer(500))).unwrap();
    assert_eq!(attempts.len(), 2);
}

#[test]
fn models_are_listed() {
    let c = UpstreamClient::fetch_available_models("tok", &empty_body(), &egress()).unwrap();
    assert_eq!(c.url(), format!("{}:fetchAvailableModels", DAILY));
    assert_eq!(c.body(), b"{}");
    assert!(!has_project(&c));
    assert!(UpstreamClient::fetch_available_models("\0", &empty_body(), &egress()).is_err());
    assert_eq!(UpstreamClient::on_models_parsed(Ok(7)), Ok(7));
    assert_eq!(
        UpstreamClient::on_models_parsed::<u8>(Err("bad".to_string())),
        Err("Parse json failed: bad".to_string())
    );
}

// ----- Auxiliary calls -----

fn aux_sent(step: AuxiliaryStep) -> AuxiliaryCall {
    match step {
        AuxiliaryStep::Send(call) => call,
        _ => panic!("no request"),
    }
}

fn aux_failed(step: AuxiliaryStep) -> String {
    match step {
        AuxiliaryStep::Failed(e) => e,
        _ => panic!("no failure"),
    }
}

fn rejected(call: AuxiliaryCall, code: u16, text: Option<&str>) -> AuxiliaryStep {
    match call.on_send(Ok(status(code))) {
        AuxiliaryStep::ReadText(r) => r.on_text(text.map(str::to_string)),
        _ => panic!("not rejected"),
    }
}

#[test]
fn auxiliary_calls_fall_back_like_others() {
    let json = body(r#"{"model":"m1"}"#);
    let start = || UpstreamClient::call_v1_internal_auxiliary("m", "tok", &json, 30);
    let headers = || {
        vec![
            ("Authorization", "Bearer tok".to_string()),
            ("Content-Type", "application/json".to_string()),
        ]
    };
    let c = start();
    assert_eq!(c.url(), format!("{}:m", DAILY));
    assert_eq!(c.headers(), headers());
    assert_eq!(c.body(), br#"{"model":"m1"}"#);
    assert_eq!(c.timeout_secs(), 30);
    let c = aux_sent(c.on_send(Err("offline".to_string())));
    assert_eq!(c.url(), format!("{}:m", SANDBOX));
    assert_eq!(c.headers(), headers());
    assert_eq!(c.body(), br#"{"model":"m1"}"#);
    assert_eq!(c.timeout_secs(), 30);
    let c = aux_sent(rejected(c, 500, Some("oops")));
    assert_eq!(c.url(), format!("{}:m", PROD));
    assert_eq!(
        aux_failed(rejected(c, 503, Some("busy"))),
        format!("{}:m returned 503 Service Unavailable: busy", PROD)
    );

    let c = aux_sent(start().on_send(Err("offline".to_string())));
    let c = aux_sent(c.on_send(Err("offline".to_string())));
    assert_eq!(
        aux_failed(c.on_send(Err("offline".to_string()))),
        format!("request to {}:m failed: offline", PROD)
    );

    assert_eq!(
        aux_failed(rejected(start(), 400, None)),
        format!("{}:m returned 400 Bad Request: ", DAILY)
    );

    let read = |parsed: Result<u8, String>| match start().on_send(Ok(status(200))) {
        AuxiliaryStep::ReadJson(c) => c.on_json(parsed),
        _ => panic!("not read"),
    };
    assert_eq!(read(Ok(7)), Ok(7));
    assert_eq!(
        read(Err("bad".to_string())),
        Err(format!("failed to parse response from {}:m: bad", DAILY))
    );
}

// ----- Clients -----

fn used(action: ClientAction) -> u64 {
    match action {
        ClientAction::Use(client) => client,
        _ => panic!("no client yet"),
    }
}

#[test]
fn the_default_client_is_built_with_the_proxy_first() {
    assert_eq!(default_build_step(DefaultBuild::NotTried), DefaultBuildStep::BuildWithProxy);
    assert_eq!(default_build_step(DefaultBuild::WithProxy(Some(7))), DefaultBuildStep::Use(7));
    assert_eq!(default_build_step(DefaultBuild::WithProxy(None)), DefaultBuildStep::BuildWithoutProxy);
    assert_eq!(default_build_step(DefaultBuild::WithoutProxy(Some(8))), DefaultBuildStep::Use(8));
    assert_eq!(default_build_step(DefaultBuild::WithoutProxy(None)), DefaultBuildStep::GiveUp);
}

#[test]
fn accounts_get_the_client_of_their_proxy() {
    let mut client = UpstreamClient::new(1, true);
    let proxy = || Ok(Some("proxy-a".to_string()));
    assert!(matches!(client.get_client(Some("acc")), ClientAction::AskPool(a) if a == "acc"));
    assert!(matches!(client.on_pool_reply(proxy()), ClientAction::Build(p) if p == "proxy-a"));
    // It cannot be built: the default client, and nothing is kept.
    assert_eq!(client.on_built("proxy-a".to_string(), None), 1);
    assert!(matches!(client.on_pool_reply(proxy()), ClientAction::Build(_)));
    // It is built once and kept.
    assert_eq!(client.on_built("proxy-a".to_string(), Some(5)), 5);
    assert_eq!(used(client.on_pool_reply(proxy())), 5);
    assert!(matches!(
        client.on_pool_reply(Ok(Some("proxy-b".to_string()))),
        ClientAction::Build(p) if p == "proxy-b"
    ));
    assert_eq!(client.on_built("proxy-b".to_string(), Some(6)), 6);
    assert_eq!(used(client.on_pool_reply(proxy())), 5);
    // Cleared, all are built anew.
    assert_eq!(client.clear_client_cache(), 2);
    assert_eq!(client.clear_client_cache(), 0);
    assert!(matches!(client.on_pool_reply(proxy()), ClientAction::Build(_)));
}

#[test]
fn without_a_proxy_the_default_client_is_used() {
    let mut client = UpstreamClient::new(1, true);
    assert_eq!(used(client.get_client(None)), 1);
    assert_eq!(used(client.on_pool_reply(Ok(None))), 1);
    assert_eq!(used(client.on_pool_reply(Err("pool is down".to_string()))), 1);
    assert_eq!(used(UpstreamClient::new(2, false).get_client(Some("acc"))), 2);
    client.rebuild_default_client(Some(9));
    assert_eq!(used(client.get_client(None)), 9);
    client.rebuild_default_client(None);
    assert_eq!(used(client.get_client(None)), 9);
}

#[test]
fn the_user_agent_can_be_set() {
    let mut client = UpstreamClient::new(1, false);
    let sanitize = |ua: String| format!("safe {}", ua);
    assert_eq!(client.get_user_agent(sanitize, "default"), "default");
    client.set_user_agent_override(Some("mine".to_string()));
    assert_eq!(client.get_user_agent(sanitize, "default"), "safe mine");
    client.set_user_agent_override(None);
    assert_eq!(client.get_user_agent(sanitize, "default"), "default");
}
