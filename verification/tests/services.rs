use convex_backend::json::Json;
use convex_backend::json_text::{parse_json, print_json};
use convex_backend::node_executor::{
    check_node_version, child_environment, choose_node_path, harden_child_process, health_checked,
    invoke, node_arguments, node_executor_env_allowlist, pipe_name, preferred_node_path, response_part,
    HealthNext, InvokeEvent, InvokeNext, InvokeOutcome, InvokeStage, Resource, StreamEvent,
    StreamPart, MAX_HEALTH_CHECK_ATTEMPTS,
};
use convex_backend::sse::{
    check_request, connect_message, last_event_id, message_to_event, needs_server_ts,
    parse_last_event_id, request_parameters, request_token, server_message_to_events, supports_chunks,
    transition_event_id, ClientType, MessageKind, Origin, RefusalKind,
};

#[test]
fn event_ids_are_understood_again() {
    for ts in [0, 1, 1_700_000_000_000_000_000, u64::MAX] {
        let id = transition_event_id(ts);
        assert_eq!(id, base64::encode(ts.to_le_bytes()));
        let point = parse_last_event_id(&id);
        assert_eq!(point.timestamp_hint, Some(ts));
        assert!(!point.has_cursor);
        assert_eq!(parse_last_event_id(&format!("{id}:3")).timestamp_hint, Some(ts));
    }
    assert_eq!(parse_last_event_id("").timestamp_hint, None);
    assert_eq!(parse_last_event_id("0").timestamp_hint, None);
    assert_eq!(parse_last_event_id("AQID").timestamp_hint, None);
    assert_eq!(parse_last_event_id("not base64!").timestamp_hint, None);
}

#[test]
fn messages_become_events() {
    let body = || parse_json("{\"type\":\"x\"}").unwrap();
    let event = |kind: MessageKind| message_to_event(&kind, &body());
    let chunk =
        event(MessageKind::TransitionChunk { transition_id: "t".to_string(), part_number: 7 });
    assert_eq!((chunk.name.as_str(), chunk.id.as_deref()), ("chunk", Some("t:7")));
    assert_eq!(chunk.data, "{\"type\":\"x\"}");
    let transition = event(MessageKind::Transition { server_ts: Some(1) });
    assert_eq!(
        (transition.name.as_str(), transition.id.as_deref()),
        ("transition", Some("AQAAAAAAAAA="))
    );
    let transition = event(MessageKind::Transition { server_ts: None });
    assert_eq!(transition.id.as_deref(), Some("0"));
    assert_eq!(event(MessageKind::Ping).name, "ping");
    assert_eq!(event(MessageKind::AuthError).name, "error");
    assert_eq!(event(MessageKind::FatalError).name, "error");
    let other = event(MessageKind::Other);
    assert_eq!((other.name.as_str(), other.id), ("message", None));

    let events =
        server_message_to_events(&vec![(MessageKind::Ping, body()), (MessageKind::Other, body())]);
    assert_eq!(events.len(), 2);
    assert_eq!(events[1].name, "message");
    assert!(needs_server_ts(&MessageKind::Transition { server_ts: None }));
    assert!(!needs_server_ts(&MessageKind::Ping));
}

#[test]
fn origins_are_checked() {
    let allowed = vec!["https://a".to_string(), "https://b".to_string()];
    let origin = |s: &str| Origin::Text(s.to_string());
    assert!(check_request(true, &Origin::Missing, &allowed).is_ok());
    assert!(check_request(true, &origin("https://b"), &allowed).is_ok());
    let refused = check_request(true, &origin("https://c"), &allowed).unwrap_err();
    assert_eq!(refused.kind, RefusalKind::Forbidden);
    assert_eq!(refused.code, "OriginNotAllowed");
    assert_eq!(
        refused.message,
        "SSE connection rejected: origin https://c is not in the allowed origins list."
    );
    let invalid = check_request(true, &Origin::Invalid, &allowed).unwrap_err();
    assert_eq!((invalid.kind, invalid.code.as_str()), (RefusalKind::BadRequest, "InvalidOrigin"));
    let off = check_request(false, &Origin::Missing, &allowed).unwrap_err();
    assert_eq!((off.kind, off.code.as_str()), (RefusalKind::NotFound, "SseDisabled"));
}

#[test]
fn queries_are_split() {
    let pairs = request_parameters(Some("lastEventId=AAA%3D&token=a+b&empty&token=c"));
    let texts: Vec<(&str, &str)> = pairs.iter().map(|(n, v)| (n.as_str(), v.as_str())).collect();
    assert_eq!(
        texts,
        vec![("lastEventId", "AAA="), ("token", "a b"), ("empty", ""), ("token", "c")]
    );
    assert_eq!(last_event_id(None, &pairs).unwrap(), "AAA=");
    assert_eq!(request_token(None, &pairs).unwrap(), "a b");
    assert!(request_parameters(None).is_empty());
}

#[test]
fn parameters_stand_in_for_headers() {
    let pair = |name: &str, value: &str| (name.to_string(), value.to_string());
    let query = vec![pair("x", "1"), pair("authToken", "a"), pair("token", "b")];
    assert_eq!(request_token(None, &query).unwrap(), "a");
    assert_eq!(request_token(Some("Bearer h".to_string()), &query).unwrap(), "Bearer h");
    assert_eq!(request_token(None, &vec![pair("accessToken", "c")]).unwrap(), "c");
    assert!(request_token(None, &vec![pair("Token", "c")]).is_none());
    assert!(last_event_id(None, &query).is_none());
    assert_eq!(last_event_id(None, &vec![pair("lastEventId", "7")]).unwrap(), "7");
    assert_eq!(
        last_event_id(Some("8".to_string()), &vec![pair("lastEventId", "7")]).unwrap(),
        "8"
    );
}

#[test]
fn children_see_what_they_are_allowed_to() {
    let pair = |name: &str, value: &str| (name.to_string(), value.to_string());
    let vars = vec![
        pair("PATH", "/bin"),
        pair("CONVEX_MARKER_SECRET", "super-secret-value"),
        pair("MARKER_KEY", "another-secret"),
        pair("HOME", "/root"),
        pair("TMPDIR", "/elsewhere"),
    ];
    assert_eq!(
        child_environment(vars, "/tmp/x".to_string(), Some("250".to_string())),
        vec![
            pair("PATH", "/bin"),
            pair("HOME", "/root"),
            pair("TMPDIR", "/tmp/x"),
            pair("CALLBACK_INITIAL_BACKOFF_MS", "250"),
        ]
    );
    assert_eq!(
        child_environment(vec![], "/tmp/x".to_string(), None),
        vec![pair("TMPDIR", "/tmp/x")]
    );
}

#[test]
fn connections_are_opened() {
    let first = connect_message(None);
    assert_eq!((first.connection_count, first.last_close_reason.as_str()), (1, ""));
    let again = connect_message(Some("id".to_string()));
    assert_eq!(again.last_close_reason, "id");
    assert!(again.max_observed_timestamp.is_none() && again.client_ts.is_none());
    let resumed = connect_message(Some(transition_event_id(1_700_000_000)));
    assert_eq!(resumed.max_observed_timestamp, Some(1_700_000_000));
    let chunk = connect_message(Some(format!("{}:3", transition_event_id(9))));
    assert_eq!(chunk.max_observed_timestamp, Some(9));
    assert!(supports_chunks(ClientType::Npm, false));
    assert!(supports_chunks(ClientType::Other, true));
    assert!(!supports_chunks(ClientType::Other, false));
}

#[test]
fn node_versions_are_checked() {
    for version in ["v20.1.0", "v22.0.0", "v24.9.9\n"] {
        assert!(check_node_version(version).is_ok());
    }
    for version in ["v18.0.0", "v200.1", "20.1.0", ""] {
        let e = check_node_version(version).unwrap_err();
        assert_eq!(e.code, "DeploymentNotConfiguredForNodeActions");
        assert!(e.message.contains("Node.js v20, 22, or 24 is not installed"));
    }
}

#[test]
fn node_is_started_with_little() {
    let names = node_executor_env_allowlist();
    assert!(names.contains(&"PATH"));
    assert!(!names.contains(&"CONVEX_SECRET"));
    assert_eq!(preferred_node_path("20.1.0"), "versions/node/v20.1.0/bin/node");
    assert_eq!(choose_node_path("/n".to_string(), true), "/n");
    assert_eq!(choose_node_path("/n".to_string(), false), "node");
    assert_eq!(
        node_arguments("a.cjs", "s", "t"),
        vec!["a.cjs", "--ipc-path", "s", "--tempdir", "t"]
    );
    assert_eq!(pipe_name(0xabc), "\\\\.\\pipe\\cvx-node-executor-0000000000000abc");
    assert_eq!(pipe_name(u64::MAX), format!("\\\\.\\pipe\\cvx-node-executor-{:016x}", u64::MAX));
}

#[test]
fn resources_are_capped() {
    assert_eq!(harden_child_process(Resource::OpenFiles, u64::MAX), Some(4096));
    assert_eq!(harden_child_process(Resource::OpenFiles, 100), Some(100));
    assert_eq!(harden_child_process(Resource::OpenFiles, 0), None);
    assert_eq!(harden_child_process(Resource::CpuSeconds, u64::MAX), Some(86_400));
    assert_eq!(harden_child_process(Resource::DataBytes, u64::MAX), Some(8 << 30));
}

#[test]
fn health_is_checked_a_limited_number_of_times() {
    let mut attempts = 0;
    let mut checks = 0;
    loop {
        checks += 1;
        match health_checked(attempts, false) {
            HealthNext::Wait { attempts: n } => attempts = n,
            HealthNext::GiveUp => break,
            HealthNext::Ready => panic!("it never gets ready"),
        }
    }
    assert_eq!(checks, MAX_HEALTH_CHECK_ATTEMPTS);
    assert_eq!(health_checked(3, true), HealthNext::Ready);
}

#[test]
fn responses_are_streamed() {
    assert!(matches!(
        response_part(StreamEvent::Chunk(vec![1])),
        Ok((StreamPart::Chunk(b), false)) if b == vec![1]
    ));
    assert!(matches!(
        response_part(StreamEvent::End),
        Ok((StreamPart::Complete { in_time: true }, true))
    ));
    assert!(matches!(
        response_part(StreamEvent::TimedOut),
        Ok((StreamPart::Complete { in_time: false }, true))
    ));
    assert_eq!(response_part(StreamEvent::Failed("e".to_string())).unwrap_err(), "e");
}

fn goes(stage: InvokeStage, event: InvokeEvent) -> InvokeStage {
    match invoke(stage, event) {
        InvokeNext::Go(next) => next,
        other => panic!("{other:?}"),
    }
}

fn ends(stage: InvokeStage, event: InvokeEvent) -> (InvokeOutcome, bool) {
    match invoke(stage, event) {
        InvokeNext::Finish { outcome, drop_server } => (outcome, drop_server),
        other => panic!("{other:?}"),
    }
}

#[test]
fn requests_go_to_the_process() {
    assert_eq!(
        goes(InvokeStage::FindServer, InvokeEvent::Server { running: true }),
        InvokeStage::Send
    );
    assert_eq!(
        goes(InvokeStage::FindServer, InvokeEvent::Server { running: false }),
        InvokeStage::StartServer
    );
    assert_eq!(goes(InvokeStage::StartServer, InvokeEvent::Started), InvokeStage::Send);
    assert_eq!(goes(InvokeStage::Send, InvokeEvent::Status(200)), InvokeStage::ReadResponse);
    assert_eq!(goes(InvokeStage::Send, InvokeEvent::Status(302)), InvokeStage::ReadResponse);
    assert_eq!(goes(InvokeStage::Send, InvokeEvent::Status(500)), InvokeStage::ReadError);
    assert!(matches!(
        ends(InvokeStage::Send, InvokeEvent::Status(413)),
        (InvokeOutcome::ArgsTooLarge, false)
    ));
    assert!(matches!(
        ends(InvokeStage::Send, InvokeEvent::SendTimedOut),
        (InvokeOutcome::TimedOut, false)
    ));
}

#[test]
fn the_process_is_dropped_for_cause() {
    let (outcome, dropped) =
        ends(InvokeStage::Send, InvokeEvent::ConnectFailed("refused".to_string()));
    assert!(dropped);
    assert!(matches!(outcome, InvokeOutcome::Error(e) if e == "Node server request failed"));
    let (outcome, dropped) = ends(InvokeStage::Send, InvokeEvent::Failed("x".to_string()));
    assert!(!dropped);
    assert!(matches!(outcome, InvokeOutcome::Error(e) if e == "Node server request failed"));
    let payload = |s: &str| InvokeEvent::Payload(parse_json(s).unwrap());
    let (outcome, dropped) = ends(InvokeStage::ReadResponse, payload("{\"exitingProcess\":true}"));
    assert!(dropped);
    match outcome {
        InvokeOutcome::Response(j) => assert_eq!(print_json(&j), "{\"exitingProcess\":true}"),
        other => panic!("{other:?}"),
    }
    assert!(!ends(InvokeStage::ReadResponse, payload("{\"exitingProcess\":false}")).1);
    assert!(!ends(InvokeStage::ReadResponse, payload("[]")).1);
    let replaced = InvokeEvent::Replacement(Json::Null);
    assert!(!ends(InvokeStage::ReadResponse, replaced).1);
}

#[test]
fn requests_that_fail_say_why() {
    let said = |stage, event| match ends(stage, event).0 {
        InvokeOutcome::Error(e) => e,
        other => panic!("{other:?}"),
    };
    let failed = || InvokeEvent::Failed("because".to_string());
    assert_eq!(
        said(InvokeStage::StartServer, failed()),
        "Failed to create inner local node executor"
    );
    assert_eq!(
        said(InvokeStage::ReadError, InvokeEvent::ErrorText("oops".to_string())),
        "Node executor server returned error: oops"
    );
    assert_eq!(said(InvokeStage::ReadError, failed()), "because");
    assert_eq!(said(InvokeStage::ReadResponse, failed()), "because");
}
