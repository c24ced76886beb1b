use grok_providers::json::{json_into_value, json_to_text, parse_json, Json, Member, Number};
use grok_providers::responses_websocket::chaining::{
    incremental_input, prepare_websocket_request, request_item_matches, CompletedExchange,
    WebSocketRequestMetadata,
};
use grok_providers::responses_websocket::failures::{
    connect_failure, json_headers, map_error_event, retry_after, should_retry, ConnectFailure,
    HandshakeOutcome,
};
use grok_providers::responses_websocket::reader::{
    ReaderAction, ReaderEvent, ResponseReader,
};
use grok_providers::responses_websocket::state::{
    apply_handshake_headers, codex_websocket_scheme, websocket_url, ResponsesWebSocketState,
    StreamAction, StreamEvent, StreamRequest, WebSocketSession, RESPONSES_WEBSOCKET_BETA,
};
use grok_providers::sampling::{ApiBackend, SamplerConfig, SamplingError};
use grok_providers::urls::UrlParts;
use reqwest::header::{HeaderMap, HeaderValue, AUTHORIZATION};

fn json(text: &str) -> Json {
    parse_json(text).expect("a JSON text")
}

fn config(base_url: &str) -> SamplerConfig {
    SamplerConfig {
        base_url: base_url.to_owned(),
        api_backend: ApiBackend::Responses,
        ..SamplerConfig::default()
    }
}

fn metadata() -> WebSocketRequestMetadata {
    WebSocketRequestMetadata {
        conversation_id: "thread-test".to_owned(),
        request_id: "turn-test".to_owned(),
        session_id: "session-test".to_owned(),
        turn_id: Some("7".to_owned()),
    }
}

fn text_at<'a>(value: &'a Json, name: &str) -> Option<&'a str> {
    value.get(name).and_then(Json::as_text)
}

#[test]
fn websocket_url_is_gated_to_exact_chatgpt_codex_endpoint() {
    assert_eq!(
        websocket_url("https://chatgpt.com/backend-api/codex/")
            .expect("canonical endpoint should support WebSockets")
            .as_str(),
        "wss://chatgpt.com/backend-api/codex/responses"
    );
    assert!(websocket_url("https://chatgpt.com.evil.test/backend-api/codex").is_none());
    assert!(websocket_url("https://chatgpt.com/backend-api/codex/custom").is_none());
    assert!(websocket_url("https://openrouter.ai/api/v1").is_none());
    assert_eq!(
        websocket_url(" http://CHATGPT.com/backend-api/codex ").as_deref(),
        Some("ws://chatgpt.com/backend-api/codex/responses")
    );
    assert!(websocket_url("ftp://chatgpt.com/backend-api/codex").is_none());
    assert!(websocket_url("not a url").is_none());
}

#[test]
fn the_first_of_repeated_names_is_written() {
    let member = |name: &str, n: i64| Member {
        name: name.into(),
        value: Json::Number(Number::Negative(n)),
    };
    let value = Json::Array(vec![Json::Object(vec![
        member("b", 1),
        member("a", -2),
        member("b", 3),
        member("c", 4),
        member("a", 5),
    ])]);
    assert_eq!(json_to_text(&value), r#"[{"b":1,"a":-2,"c":4}]"#);
    assert_eq!(json_to_text(&value.settle()), json_to_text(&value));
    assert_eq!(json_into_value(&value)[0]["b"].as_u64(), Some(1));
}

#[test]
fn the_codex_endpoint_is_told_by_its_parts() {
    let scheme = |scheme: &str, host: Option<&str>, path: &str| {
        codex_websocket_scheme(&UrlParts {
            scheme: scheme.into(),
            host: host.map(String::from),
            path: path.into(),
        })
    };
    assert_eq!(scheme("https", Some("chatgpt.com"), "/backend-api/codex"), Some("wss"));
    assert_eq!(scheme("http", Some("ChatGPT.com"), "/backend-api/codex//"), Some("ws"));
    assert_eq!(scheme("ftp", Some("chatgpt.com"), "/backend-api/codex"), None);
    assert_eq!(scheme("https", Some("chatgpt.com.evil.test"), "/backend-api/codex"), None);
    assert_eq!(scheme("https", Some("xchatgpt.com"), "/backend-api/codex"), None);
    assert_eq!(scheme("https", Some("chatgpt.com"), "/backend-api/codex/custom"), None);
    assert_eq!(scheme("https", None, "/backend-api/codex"), None);
}

#[test]
fn equivalent_reconstructed_hooks_preserve_websocket_state() {
    let mut initial = config("https://chatgpt.com/backend-api/codex");
    initial.header_injector = true;
    let state = ResponsesWebSocketState::new(&initial);

    let mut reconstructed = initial.clone();
    reconstructed.header_injector = true;
    assert!(state.matches_config(&reconstructed));

    reconstructed.header_injector = false;
    assert!(!state.matches_config(&reconstructed));
}

#[test]
fn configuration_key_ignores_case_slashes_and_header_order() {
    let mut first = config("https://ChatGPT.com/backend-api/codex//");
    first.extra_headers.insert("a".into(), "1".into());
    first.extra_headers.insert("b".into(), "2".into());
    let state = ResponsesWebSocketState::new(&first);
    let mut second = config("https://chatgpt.com/backend-api/codex");
    second.extra_headers.insert("b".into(), "2".into());
    second.extra_headers.insert("a".into(), "1".into());
    assert!(state.matches_config(&second));
    second.extra_headers.insert("a".into(), "3".into());
    assert!(!state.matches_config(&second));
    let mut keyed = first.clone();
    keyed.api_key = Some("k".into());
    assert!(!state.matches_config(&keyed));
}

#[test]
fn compatible_request_uses_previous_response_and_only_incremental_input() {
    let assistant = json(
        r#"{"type":"message","id":"msg-1","role":"assistant","status":"completed",
            "content":[{"type":"output_text","text":"hello","annotations":[]}]}"#,
    );
    let previous = CompletedExchange {
        full_request: json(
            r#"{"model":"gpt-test","instructions":"be concise",
                "input":[{"role":"user","content":"first"}],"stream":true}"#,
        ),
        response_id: "resp-1".to_owned(),
        output_items: vec![assistant],
    };
    let current = json(
        r#"{"model":"gpt-test","instructions":"be concise","input":[
                {"role":"user","content":"first"},
                {"type":"message","role":"assistant","content":"hello"},
                {"role":"user","content":"second"}],"stream":true}"#,
    );

    let (wire, unchained_reason) =
        prepare_websocket_request(&current, Some(&previous), &metadata(), 123);
    assert!(unchained_reason.is_none());
    assert_eq!(text_at(&wire, "type"), Some("response.create"));
    assert_eq!(text_at(&wire, "previous_response_id"), Some("resp-1"));
    assert!(wire.get("input").unwrap().same(&json(r#"[{"role":"user","content":"second"}]"#)));
    let client = wire.get("client_metadata").unwrap();
    assert_eq!(text_at(client, "session_id"), Some("session-test"));
    assert_eq!(text_at(client, "x-codex-ws-stream-request-start-ms"), Some("123"));
    assert_eq!(text_at(client, "thread_id"), Some("thread-test"));
    assert_eq!(text_at(client, "turn_id"), Some("turn-test"));
    assert_eq!(text_at(client, "x-grog-turn-index"), Some("7"));
}

#[test]
fn tool_continuation_matches_output_items_after_typed_round_trip() {
    let previous = CompletedExchange {
        full_request: json(
            r#"{"model":"gpt-test","input":[{"type":"message","role":"user","content":"run pwd"}],
                "stream":true}"#,
        ),
        response_id: "resp-tool".to_owned(),
        output_items: vec![
            json(
                r#"{"type":"reasoning","id":"rs_1","status":"completed","summary":[],
                    "internal_chat_message_metadata_passthrough":{"turn_id":"turn-1"}}"#,
            ),
            json(
                r#"{"type":"function_call","id":"fc_1","status":"completed","call_id":"call_1",
                    "name":"run_terminal_command","arguments":"{\"command\":\"pwd\"}",
                    "metadata":{"turn_id":"turn-1"}}"#,
            ),
        ],
    };
    let current = json(
        r#"{"model":"gpt-test","input":[
                {"type":"message","role":"user","content":"run pwd"},
                {"type":"reasoning","id":"rs_1","summary":[]},
                {"type":"function_call","call_id":"call_1","name":"run_terminal_command",
                 "arguments":"{\"command\":\"pwd\"}"},
                {"type":"function_call_output","call_id":"call_1","output":"repo"}],
            "stream":true}"#,
    );

    let (wire, unchained_reason) =
        prepare_websocket_request(&current, Some(&previous), &metadata(), 123);
    assert!(unchained_reason.is_none());
    assert_eq!(text_at(&wire, "previous_response_id"), Some("resp-tool"));
    assert!(wire.get("input").unwrap().same(&json(
        r#"[{"type":"function_call_output","call_id":"call_1","output":"repo"}]"#
    )));
}

#[test]
fn changed_request_properties_send_full_request_without_previous_response() {
    let previous = CompletedExchange {
        full_request: json(
            r#"{"model":"gpt-test","instructions":"old",
                "input":[{"role":"user","content":"first"}],"stream":true}"#,
        ),
        response_id: "resp-1".to_owned(),
        output_items: vec![],
    };
    let current = json(
        r#"{"model":"gpt-test","instructions":"new",
            "input":[{"role":"user","content":"second"}],"stream":true}"#,
    );

    let (wire, unchained_reason) =
        prepare_websocket_request(&current, Some(&previous), &metadata(), 123);
    assert_eq!(unchained_reason, Some("request_properties_changed"));
    assert!(wire.get("previous_response_id").is_none());
    assert!(wire.get("input").unwrap().same(current.get("input").unwrap()));
}

fn exchange(request: &str, id: &str, output: &[&str]) -> CompletedExchange {
    CompletedExchange {
        full_request: json(request),
        response_id: id.to_owned(),
        output_items: output.iter().map(|o| json(o)).collect(),
    }
}

fn reason(previous: &CompletedExchange, request: &str) -> &'static str {
    match incremental_input(previous, &json(request)) {
        Ok(_) => "",
        Err(reason) => reason,
    }
}

#[test]
fn every_reason_to_send_in_full_is_named() {
    let base = r#"{"input":["a"]}"#;
    assert_eq!(reason(&exchange(base, "", &[]), base), "missing_response_id");
    assert_eq!(
        reason(&exchange(base, "r", &[]), r#"{"model":"m","input":["a"]}"#),
        "request_properties_changed"
    );
    assert_eq!(reason(&exchange(r#"{"input":1}"#, "r", &[]), base), "previous_input_not_array");
    assert_eq!(reason(&exchange(base, "r", &[]), r#"{"input":null}"#), "current_input_not_array");
    assert_eq!(
        reason(&exchange(base, "r", &["\"b\""]), base),
        "current_input_shorter_than_baseline"
    );
    assert_eq!(reason(&exchange(base, "r", &[]), r#"{"input":["b"]}"#), "context_prefix_changed");
    assert_eq!(reason(&exchange(base, "r", &[]), r#"{"input":["a","b"]}"#), "");
    let (_, none) = prepare_websocket_request(&Json::Null, None, &metadata(), 1);
    assert_eq!(none, Some("no_previous_response"));
}

#[test]
fn stream_options_do_not_break_the_chain() {
    let previous = exchange(
        r#"{"model":"m","stream_options":{"a":1},"previous_response_id":"x","input":[]}"#,
        "r",
        &[],
    );
    assert_eq!(reason(&previous, r#"{"model":"m","type":"t","input":[1]}"#), "");
}

#[test]
fn request_items_match_without_transport_fields() {
    let echoed = json(r#"{"a":1,"metadata":{"x":1},"b":[0.0]}"#);
    let sent = json(r#"{"b":[-0.0],"a":1}"#);
    assert!(request_item_matches(&echoed, &sent));
    assert!(!request_item_matches(&json(r#"{"a":1,"id":2}"#), &json(r#"{"a":1}"#)));
}

#[test]
fn message_parts_have_to_be_text() {
    let output = r#"{"type":"message","role":"assistant","content":[
        {"type":"output_text","text":"a"},{"type":"input_text","text":"b"}]}"#;
    let ok = r#"{"input":[{"type":"message","role":"assistant","content":"a\nb"}]}"#;
    assert_eq!(reason(&exchange(r#"{"input":[]}"#, "r", &[output]), ok), "");
    let image = r#"{"type":"message","role":"assistant","content":[{"type":"image","text":"a"}]}"#;
    assert_eq!(
        reason(
            &exchange(r#"{"input":[]}"#, "r", &[image]),
            r#"{"input":[{"type":"message","role":"assistant","content":"a"}]}"#
        ),
        "context_prefix_changed"
    );
    assert_eq!(
        reason(
            &exchange(r#"{"input":[]}"#, "r", &[output]),
            r#"{"input":[{"type":"message","role":"user","content":"a\nb"}]}"#
        ),
        "context_prefix_changed"
    );
}

#[test]
fn wire_request_keeps_members_and_replaces_odd_metadata() {
    let request = json(
        r#"{"model":"m","client_metadata":"odd","previous_response_id":"stale","input":[1]}"#,
    );
    let empty = WebSocketRequestMetadata {
        conversation_id: String::new(),
        request_id: String::new(),
        session_id: String::new(),
        turn_id: None,
    };
    let (wire, _) = prepare_websocket_request(&request, None, &empty, 5);
    assert!(wire.same(&json(
        r#"{"model":"m","input":[1],"type":"response.create",
            "client_metadata":{"x-codex-ws-stream-request-start-ms":"5"}}"#
    )));
    let kept = json(r#"{"client_metadata":{"own":1}}"#);
    let (wire, _) = prepare_websocket_request(&kept, None, &metadata(), 5);
    let client = wire.get("client_metadata").unwrap();
    assert!(client.get("own").is_some());
    assert_eq!(text_at(client, "turn_id"), Some("turn-test"));
}

fn stream_error(error: SamplingError) -> (Option<String>, String, String) {
    match error {
        SamplingError::StreamError { code, error_type, message } => {
            (code.map(|c| c.code), error_type, message)
        }
        other => panic!("expected a stream error, got {other:?}"),
    }
}

#[test]
fn error_events_become_errors() {
    let (code, kind, message) = stream_error(map_error_event(&json(r#"{"type":"error"}"#)));
    assert_eq!(code.as_deref(), Some("websocket_error"));
    assert_eq!(kind, "websocket_error");
    assert_eq!(message, "Responses WebSocket returned an error");

    let (_, kind, message) = stream_error(map_error_event(&json(
        r#"{"status":500,"error":{"code":"previous_response_not_found"}}"#,
    )));
    assert_eq!(kind, "previous_response_not_found");
    assert_eq!(message, "Previous response was not found. Retrying the full request.");

    let (_, _, message) = stream_error(map_error_event(&json(
        r#"{"code":"websocket_connection_limit_reached"}"#,
    )));
    assert_eq!(
        message,
        "Responses WebSocket connection limit reached. Creating a new connection."
    );

    match map_error_event(&json(r#"{"status":401,"message":"no"}"#)) {
        SamplingError::Auth(message) => assert_eq!(message, "Unauthorized (401): no"),
        other => panic!("expected an auth error, got {other:?}"),
    }

    let (_, kind, _) = stream_error(map_error_event(&json(r#"{"status":204,"code":"c"}"#)));
    assert_eq!(kind, "c");
    let (_, kind, _) = stream_error(map_error_event(&json(r#"{"status":1000,"code":"c"}"#)));
    assert_eq!(kind, "c");
}

#[test]
fn error_events_with_very_many_headers_end_the_session() {
    let headers: Vec<String> = (0..7000).map(|i| format!(r#""h{i}":"v""#)).collect();
    let text = format!(
        r#"{{"type":"error","status":429,"code":"busy","message":"slow","headers":{{{}}}}}"#,
        headers.join(",")
    );
    let mut session = connected();
    let mut reader = ResponseReader::new(Json::Null);
    match reader.read_response(&mut session, ReaderEvent::Text(text)) {
        ReaderAction::Fail(SamplingError::Api { status, message, error_code, .. }) => {
            assert_eq!(status, 429);
            assert_eq!(message, "slow");
            assert_eq!(error_code.unwrap().code, "busy");
        }
        _ => panic!("expected an error"),
    }
    assert!(!session.connected);
}

#[test]
fn error_events_with_a_status_carry_their_headers() {
    let event = json(
        r#"{"status_code":503,"error":{"code":"busy","message":"later"},
            "headers":{"Retry-After":500,"X-Should-Retry":"TRUE","bad name":"x","list":[]}}"#,
    );
    match map_error_event(&event) {
        SamplingError::Api { status, message, retry_after_secs, should_retry, error_code } => {
            assert_eq!(status, 503);
            assert_eq!(message, "later");
            assert_eq!(retry_after_secs, Some(120));
            assert_eq!(should_retry, Some(true));
            assert_eq!(error_code.map(|c| c.code).as_deref(), Some("busy"));
        }
        other => panic!("expected an API error, got {other:?}"),
    }
    match map_error_event(&json(r#"{"status":429,"headers":{"retry-after":"7","x-should-retry":false}}"#)) {
        SamplingError::Api { retry_after_secs, should_retry, .. } => {
            assert_eq!(retry_after_secs, Some(7));
            assert_eq!(should_retry, Some(false));
        }
        other => panic!("expected an API error, got {other:?}"),
    }
}

#[test]
fn headers_are_read_from_objects_only() {
    assert!(json_headers(&json("[1]")).is_none());
    let headers = json_headers(&json(r#"{"A":"1","a":"2","b":"x\ny","c":-3,"d":true,"e":1.5}"#))
        .unwrap();
    assert_eq!(headers.get("a").unwrap(), "2");
    assert!(headers.get("b").is_none());
    assert_eq!(headers.get("c").unwrap(), "-3");
    assert_eq!(headers.get("d").unwrap(), "true");
    assert_eq!(headers.get("e").unwrap(), "1.5");
    let mut odd = HeaderMap::new();
    odd.insert("retry-after", HeaderValue::from_static("soon"));
    odd.insert("x-should-retry", HeaderValue::from_static("maybe"));
    assert_eq!(retry_after(&odd), None);
    assert_eq!(should_retry(&odd), None);
    odd.insert("retry-after", HeaderValue::from_bytes(b"\xff").unwrap());
    assert_eq!(retry_after(&odd), None);
    odd.insert("retry-after", HeaderValue::from_static("+12"));
    assert_eq!(retry_after(&odd), Some(12));
}

#[test]
fn handshake_headers_identify_the_request() {
    let mut headers = HeaderMap::new();
    headers.insert(AUTHORIZATION, HeaderValue::from_static("Bearer test-token"));
    apply_handshake_headers(&mut headers, &metadata());
    assert_eq!(headers.get("openai-beta").unwrap(), RESPONSES_WEBSOCKET_BETA);
    assert_eq!(headers.get("x-client-request-id").unwrap(), "thread-test");
    assert_eq!(headers.get("session-id").unwrap(), "session-test");
    assert_eq!(headers.get("thread-id").unwrap(), "thread-test");
    assert_eq!(headers.get(AUTHORIZATION).unwrap(), "Bearer test-token");
    let mut bare = HeaderMap::new();
    let mut odd = metadata();
    odd.session_id = "a\nb".into();
    odd.conversation_id = String::new();
    apply_handshake_headers(&mut bare, &odd);
    assert_eq!(bare.len(), 1);
}

fn api_error(failure: ConnectFailure) -> SamplingError {
    match failure {
        ConnectFailure::Error(error) => error,
        ConnectFailure::UpgradeRequired => panic!("expected an error"),
    }
}

#[test]
fn failed_handshakes_are_told_apart() {
    let refused = |status: u16, body: Option<&[u8]>| HandshakeOutcome::Refused {
        status,
        headers: HeaderMap::new(),
        body: body.map(|b| b.to_vec()),
    };
    let url = "wss://chatgpt.com/x";
    assert!(matches!(
        connect_failure(url, refused(426, None)),
        ConnectFailure::UpgradeRequired
    ));
    match api_error(connect_failure(url, refused(401, Some(b" nope ")))) {
        SamplingError::Auth(m) => {
            assert_eq!(m, "Unauthorized (401) from wss://chatgpt.com/x: nope")
        }
        other => panic!("{other:?}"),
    }
    match api_error(connect_failure(url, refused(500, Some(b"  ")))) {
        SamplingError::Api { status, message, error_code, .. } => {
            assert_eq!(status, 500);
            assert_eq!(
                message,
                "Responses WebSocket handshake failed (500 Internal Server Error)"
            );
            assert!(error_code.is_none());
        }
        other => panic!("{other:?}"),
    }
    match api_error(connect_failure(url, refused(503, Some(b"a\xffb")))) {
        SamplingError::Api { message, .. } => assert_eq!(message, "a\u{fffd}b"),
        other => panic!("{other:?}"),
    }
    let text = |outcome| match api_error(connect_failure(url, outcome)) {
        SamplingError::EventStreamError(m) => m,
        other => panic!("{other:?}"),
    };
    assert_eq!(
        text(HandshakeOutcome::BadRequest("e".into())),
        "failed to build Responses WebSocket request: e"
    );
    assert_eq!(text(HandshakeOutcome::TimedOut), "Responses WebSocket connection timed out");
    assert_eq!(
        text(HandshakeOutcome::Failed("e".into())),
        "Responses WebSocket connection failed: e"
    );
}

fn frame(reader: &mut ResponseReader, session: &mut WebSocketSession, text: &str) -> Option<Json> {
    match reader.read_response(session, ReaderEvent::Text(text.to_owned())) {
        ReaderAction::Forward(text) => Some(json(&text)),
        ReaderAction::Read => None,
        _ => panic!("unexpected action"),
    }
}

fn connected() -> WebSocketSession {
    WebSocketSession { connected: true, ..WebSocketSession::default() }
}

#[test]
fn reuses_connection_and_sends_codex_beta_and_incremental_request() {
    let mut state = ResponsesWebSocketState::new(&config("https://chatgpt.com/backend-api/codex"));
    let first = StreamRequest {
        body: json(
            r#"{"model":"gpt-test","instructions":"test",
                "input":[{"role":"user","content":"first"}],"stream":true}"#,
        ),
        metadata: metadata(),
        start_ms: 1,
    };
    assert!(matches!(
        state.stream_at_url(&first, StreamEvent::Started),
        StreamAction::Connect
    ));
    let mut handshake_headers = HeaderMap::new();
    handshake_headers.insert(AUTHORIZATION, HeaderValue::from_static("Bearer test-token"));
    apply_handshake_headers(&mut handshake_headers, &first.metadata);
    assert_eq!(handshake_headers.get("openai-beta").unwrap(), RESPONSES_WEBSOCKET_BETA);
    assert_eq!(handshake_headers.get(AUTHORIZATION).unwrap(), "Bearer test-token");
    assert_eq!(handshake_headers.get("session-id").unwrap(), "session-test");
    let first_wire = match state.stream_at_url(&first, StreamEvent::Connected(HeaderMap::new())) {
        StreamAction::Send { text, connection_reused, unchained_reason } => {
            assert!(!connection_reused);
            assert_eq!(unchained_reason, Some("no_previous_response"));
            json(&text)
        }
        _ => panic!("expected a request to send"),
    };
    assert_eq!(text_at(&first_wire, "type"), Some("response.create"));
    assert!(first_wire.get("previous_response_id").is_none());
    assert!(matches!(state.stream_at_url(&first, StreamEvent::Sent), StreamAction::Read));

    let mut reader = ResponseReader::new(first.body.clone());
    let session = &mut state.session;
    assert!(frame(
        &mut reader,
        session,
        r#"{"type":"response.output_item.done","output_index":0,"sequence_number":1,"item":
            {"type":"message","id":"msg-1","role":"assistant","status":"completed",
             "content":[{"type":"output_text","text":"answer-1","annotations":[]}]}}"#,
    )
    .is_some());
    assert!(matches!(
        reader.read_response(session, ReaderEvent::Forwarded(true)),
        ReaderAction::Read
    ));
    let completed = frame(
        &mut reader,
        session,
        r#"{"type":"response.completed","response":{"id":"resp-1","output":[]}}"#,
    )
    .unwrap();
    let output = completed.get_in("response", "output").unwrap().as_items().unwrap();
    assert_eq!(text_at(&output[0], "id"), Some("msg-1"));
    assert!(matches!(
        reader.read_response(session, ReaderEvent::Forwarded(true)),
        ReaderAction::Stop
    ));

    let second = StreamRequest {
        body: json(
            r#"{"model":"gpt-test","instructions":"test","input":[
                {"role":"user","content":"first"},
                {"type":"message","role":"assistant","content":"answer-1"},
                {"role":"user","content":"second"}],"stream":true}"#,
        ),
        metadata: metadata(),
        start_ms: 2,
    };
    match state.stream_at_url(&second, StreamEvent::Started) {
        StreamAction::Send { text, connection_reused, unchained_reason } => {
            assert!(connection_reused);
            assert!(unchained_reason.is_none());
            let wire = json(&text);
            assert_eq!(text_at(&wire, "previous_response_id"), Some("resp-1"));
            assert!(wire
                .get("input")
                .unwrap()
                .same(&json(r#"[{"role":"user","content":"second"}]"#)));
        }
        _ => panic!("expected a request to send"),
    }
}

#[test]
fn upgrade_required_disables_websocket_for_the_session() {
    let base = "https://chatgpt.com/backend-api/codex";
    let mut state = ResponsesWebSocketState::new(&config(base));
    assert!(state.enabled_for(base, &ApiBackend::Responses));
    assert!(!state.enabled_for(base, &ApiBackend::ChatCompletions));
    assert!(state.stream(base).is_some());
    let request = StreamRequest {
        body: json(r#"{"model":"gpt-test","input":[],"stream":true}"#),
        metadata: metadata(),
        start_ms: 1,
    };
    assert!(matches!(
        state.stream_at_url(&request, StreamEvent::NotConnected(ConnectFailure::UpgradeRequired)),
        StreamAction::FallbackToHttp
    ));
    assert!(!state.enabled_for(base, &ApiBackend::Responses));
    assert!(state.stream(base).is_none());
    let long = format!("{base}{}", "/".repeat(0x100_0001));
    assert!(!state.enabled_for(&long, &ApiBackend::Responses));
    assert!(state.stream(&long).is_none());
    assert!(matches!(
        state.stream_at_url(&request, StreamEvent::Started),
        StreamAction::FallbackToHttp
    ));
}

#[test]
fn forced_fallback_is_reported_once() {
    let mut state = ResponsesWebSocketState::new(&config("https://chatgpt.com/backend-api/codex"));
    state.session.connected = true;
    assert!(state.force_http_fallback());
    assert!(!state.session.connected);
    assert!(!state.force_http_fallback());
}

#[test]
fn failing_to_send_resets_the_session() {
    let request = StreamRequest { body: json("{}"), metadata: metadata(), start_ms: 1 };
    let mut state = ResponsesWebSocketState::new(&config("https://chatgpt.com/backend-api/codex"));
    state.session = connected();
    match state.stream_at_url(&request, StreamEvent::SendFailed("e".into())) {
        StreamAction::Fail(SamplingError::EventStreamError(m)) => {
            assert_eq!(m, "failed to send Responses WebSocket request: e")
        }
        _ => panic!("expected a failure"),
    }
    assert!(!state.session.connected);
    state.session = connected();
    match state.stream_at_url(&request, StreamEvent::SendTimedOut) {
        StreamAction::Fail(SamplingError::EventStreamError(m)) => {
            assert_eq!(m, "timed out sending Responses WebSocket request")
        }
        _ => panic!("expected a failure"),
    }
    state.session = connected();
    let failure = ConnectFailure::Error(SamplingError::EventStreamError("x".into()));
    assert!(matches!(
        state.stream_at_url(&request, StreamEvent::NotConnected(failure)),
        StreamAction::Fail(_)
    ));
    assert!(!state.session.connected);
    assert!(!state.disabled);
}

fn failure_text(event: ReaderEvent) -> String {
    let mut session = connected();
    let mut reader = ResponseReader::new(Json::Null);
    match reader.read_response(&mut session, event) {
        ReaderAction::Fail(SamplingError::EventStreamError(m)) => {
            assert!(!session.connected);
            m
        }
        _ => panic!("expected a failure"),
    }
}

#[test]
fn broken_streams_fail_with_a_reason() {
    assert_eq!(
        failure_text(ReaderEvent::ReadFailed("e".into())),
        "Responses WebSocket read failed: e"
    );
    let closed = "Responses WebSocket closed before response.completed";
    assert_eq!(failure_text(ReaderEvent::Ended), closed);
    assert_eq!(failure_text(ReaderEvent::Close), closed);
    assert_eq!(
        failure_text(ReaderEvent::IdleTimeout),
        "idle timeout waiting for Responses WebSocket"
    );
    assert_eq!(
        failure_text(ReaderEvent::Binary),
        "unexpected binary Responses WebSocket frame"
    );
    assert_eq!(
        failure_text(ReaderEvent::PingReplied(false)),
        "failed to reply to Responses WebSocket ping"
    );
}

#[test]
fn frames_that_are_not_events_are_passed_over() {
    let mut session = connected();
    let mut reader = ResponseReader::new(Json::Null);
    assert!(frame(&mut reader, &mut session, "not json").is_none());
    assert!(frame(&mut reader, &mut session, r#"{"type":"codex.rate_limits"}"#).is_none());
    assert!(
        frame(&mut reader, &mut session, r#"{"type":"responsesapi.websocket_timing"}"#).is_none()
    );
    assert!(matches!(
        reader.read_response(&mut session, ReaderEvent::Ping),
        ReaderAction::ReplyToPing
    ));
    assert!(matches!(
        reader.read_response(&mut session, ReaderEvent::PingReplied(true)),
        ReaderAction::Read
    ));
    assert!(matches!(
        reader.read_response(&mut session, ReaderEvent::Pong),
        ReaderAction::Read
    ));
    match reader.read_response(&mut session, ReaderEvent::Text(" {\"a\": 1} ".into())) {
        ReaderAction::Forward(text) => assert_eq!(text, " {\"a\": 1} "),
        _ => panic!("expected the frame itself"),
    }
    assert!(session.connected);
}

#[test]
fn error_frames_end_the_session() {
    let mut session = connected();
    let mut reader = ResponseReader::new(Json::Null);
    match reader.read_response(
        &mut session,
        ReaderEvent::Text(r#"{"type":"error","code":"c","message":"m"}"#.into()),
    ) {
        ReaderAction::Fail(error) => assert_eq!(stream_error(error).2, "m"),
        _ => panic!("expected a failure"),
    }
    assert!(!session.connected);
}

#[test]
fn the_end_of_a_response_decides_what_is_kept() {
    let end = |kind: &str, delivered: bool| -> WebSocketSession {
        let mut session = connected();
        session.last_exchange = Some(exchange("{}", "old", &[]));
        let mut reader = ResponseReader::new(json(r#"{"input":[]}"#));
        frame(&mut reader, &mut session, r#"{"type":"response.created","response":{"id":"r"}}"#);
        reader.read_response(&mut session, ReaderEvent::Forwarded(true));
        frame(
            &mut reader,
            &mut session,
            &format!(r#"{{"type":"{kind}","response":{{"output":[1,2]}}}}"#),
        );
        assert!(matches!(
            reader.read_response(&mut session, ReaderEvent::Forwarded(delivered)),
            ReaderAction::Stop
        ));
        session
    };
    let kept = end("response.completed", true).last_exchange.unwrap();
    assert_eq!(kept.response_id, "r");
    assert_eq!(kept.output_items.len(), 2);
    assert!(kept.full_request.same(&json(r#"{"input":[]}"#)));
    let cut = end("response.incomplete", true);
    assert!(cut.connected && cut.last_exchange.is_none());
    let failed = end("response.failed", true);
    assert!(!failed.connected && failed.last_exchange.is_none());
    assert!(!end("response.completed", false).connected);

    let mut session = connected();
    let mut reader = ResponseReader::new(Json::Null);
    frame(&mut reader, &mut session, r#"{"type":"response.completed","response":{}}"#);
    reader.read_response(&mut session, ReaderEvent::Forwarded(true));
    assert!(session.last_exchange.is_none());
    assert!(matches!(
        reader.read_response(&mut session, ReaderEvent::ReceiverClosed),
        ReaderAction::Stop
    ));
    assert!(!session.connected);
}
