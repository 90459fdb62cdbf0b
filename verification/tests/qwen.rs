use overlingo::qwen::{
    announces_ready, audio_append, drain_step, DrainInput, FINISH_WAIT_MS, audio_message, build_qwen_endpoint, build_session_update, finish, finish_message, handle_server_event, session_update, partial_text, sanitize_error, server_error,
    server_event_type, session_source_language, QwenRealtimeConfig,
};
use overlingo::realtime::{Event, FragmentKind};

const CURRENT_MODEL: &str = "qwen3.5-livetranslate-flash-realtime";

fn config(region: &str, workspace_id: &str, model: &str) -> QwenRealtimeConfig {
    QwenRealtimeConfig {
        api_key: "test-key".into(),
        source_language: "zh".into(),
        target_language: "en".into(),
        region: region.into(),
        workspace_id: workspace_id.into(),
        model: model.into(),
        route_id: "system".into(),
    }
}

#[test]
fn rejects_retired_models() {
    let cfg = config("beijing", "ws-123", "qwen3-livetranslate-flash-realtime");
    assert!(build_qwen_endpoint(&cfg).is_err());
}

#[test]
fn builds_workspace_beijing_endpoint() {
    let cfg = config("beijing", "ws-123", CURRENT_MODEL);
    let (url, host) = build_qwen_endpoint(&cfg).unwrap();
    assert_eq!(host, "ws-123.cn-beijing.maas.aliyuncs.com");
    assert_eq!(
        url,
        "wss://ws-123.cn-beijing.maas.aliyuncs.com/api-ws/v1/realtime?model=qwen3.5-livetranslate-flash-realtime"
    );
}

#[test]
fn qwen35_requires_workspace_id() {
    let cfg = config("beijing", "", CURRENT_MODEL);
    assert!(build_qwen_endpoint(&cfg).is_err());
}

#[test]
fn preserves_qwen_server_error_details() {
    let error = r#"{"type":"error","error":{"code":"invalid_value","message":"Invalid language","param":"session.translation.language"}}"#;
    assert_eq!(
        server_error(error).as_deref(),
        Some("invalid_value: Invalid language: parameter: session.translation.language")
    );
}

#[test]
fn qwen_realtime_redacts_credentials_from_connection_errors() {
    let cfg = config("beijing", "workspace-secret", CURRENT_MODEL);
    let error = sanitize_error(
        &cfg,
        "failed workspace-secret.cn-beijing.maas.aliyuncs.com with test-key".into(),
    );
    assert_eq!(error, "failed <redacted>.cn-beijing.maas.aliyuncs.com with <redacted>");
}

#[test]
fn endpoint_errors_say_what_is_wrong() {
    assert_eq!(
        build_qwen_endpoint(&config("beijing", "ws 1", CURRENT_MODEL)),
        Err("Workspace ID contains unsupported characters".to_string())
    );
    assert_eq!(
        build_qwen_endpoint(&config("frankfurt", "ws-1", CURRENT_MODEL)),
        Err("Unsupported Qwen region: frankfurt".to_string())
    );
    assert_eq!(
        build_qwen_endpoint(&config("beijing", "ws-1", "other")),
        Err("Unsupported Qwen LiveTranslate model: other".to_string())
    );
    let (_, host) = build_qwen_endpoint(&config("singapore", " ws-2 ", CURRENT_MODEL)).unwrap();
    assert_eq!(host, "ws-2.ap-southeast-1.maas.aliyuncs.com");
}

#[test]
fn an_empty_or_automatic_source_is_requested_as_english() {
    assert_eq!(session_source_language(""), "en");
    assert_eq!(session_source_language("auto"), "en");
    assert_eq!(session_source_language("ja"), "ja");
}

fn fragments(events: &[Event]) -> Vec<(FragmentKind, String, bool)> {
    events
        .iter()
        .filter_map(|event| match event {
            Event::Fragment { kind, text, final_fragment } => Some((*kind, text.clone(), *final_fragment)),
            _ => None,
        })
        .collect()
}

#[test]
fn partial_text_is_the_committed_prefix_and_the_tail() {
    assert_eq!(partial_text(r#"{"text":"Hel","stash":"lo"}"#), "Hello");
    assert_eq!(partial_text(r#"{"stash":"lo"}"#), "lo");
    assert_eq!(server_event_type(r#"{"type":"session.updated"}"#).as_deref(), Some("session.updated"));
    assert_eq!(server_event_type("not json"), None);
}

#[test]
fn a_repeated_done_event_is_delivered_once() {
    let mut last = None;
    let done = r#"{"type":"response.text.done","response_id":"r1","text":"Hello"}"#;
    let (events, finished) = handle_server_event(done, &mut last);
    assert!(!finished);
    assert_eq!(fragments(&events), vec![(FragmentKind::Translation, "Hello".to_string(), true)]);
    let (again, _) = handle_server_event(done, &mut last);
    assert!(again.is_empty());
}

#[test]
fn transcripts_and_the_end_of_a_session_are_recognised() {
    let mut last = None;
    let (events, _) = handle_server_event(
        r#"{"type":"conversation.item.input_audio_transcription.text","text":"你","stash":"好"}"#,
        &mut last,
    );
    assert_eq!(fragments(&events), vec![(FragmentKind::Original, "你好".to_string(), false)]);
    let (events, _) = handle_server_event(
        r#"{"type":"conversation.item.input_audio_transcription.completed","transcript":"你好"}"#,
        &mut last,
    );
    assert_eq!(fragments(&events), vec![(FragmentKind::Original, "你好".to_string(), true)]);
    let (events, finished) = handle_server_event(r#"{"type":"session.finished"}"#, &mut last);
    assert!(events.is_empty() && finished);
    let (events, finished) = handle_server_event("garbage", &mut last);
    assert!(events.is_empty() && !finished);
}

#[test]
fn an_error_without_details_still_says_so() {
    assert_eq!(
        server_error(r#"{"type":"error","error":{}}"#).as_deref(),
        Some("Qwen returned an unknown error")
    );
    assert_eq!(server_error(r#"{"type":"response.done"}"#), None);
}

#[test]
fn source_transcript_is_always_requested() {
    let cfg = config("beijing", "ws-123", CURRENT_MODEL);
    let enabled: serde_json::Value = serde_json::from_str(&build_session_update(&cfg)).unwrap();
    assert_eq!(enabled["session"]["input_audio_transcription"]["model"], "qwen3-asr-flash-realtime");
}

#[test]
fn continuous_audio_uses_server_vad() {
    let cfg = config("beijing", "llm-test", CURRENT_MODEL);
    let update: serde_json::Value = serde_json::from_str(&build_session_update(&cfg)).unwrap();
    assert_eq!(update["session"]["sample_rate"], 16000);
    assert_eq!(update["session"]["turn_detection"]["type"], "server_vad");
    assert!(update["event_id"].as_str().is_some_and(|value| value.starts_with("event_session_")));
}

#[test]
fn a_session_update_is_written_exactly() {
    let mut cfg = config("beijing", "ws-123", CURRENT_MODEL);
    cfg.source_language = "auto".into();
    assert_eq!(
        session_update(&cfg, 42),
        [
            r#"{"event_id":"event_session_42","type":"session.update","session":{"modalities":["text"],"#,
            r#""sample_rate":16000,"input_audio_format":"pcm","input_audio_transcription":{"language":"en","#,
            r#""model":"qwen3-asr-flash-realtime"},"translation":{"language":"en"},"turn_detection":"#,
            r#"{"type":"server_vad","threshold":0.2,"silence_duration_ms":800}}}"#,
        ]
        .concat()
    );
}

#[test]
fn strings_in_a_session_update_are_escaped() {
    let mut cfg = config("beijing", "ws-123", CURRENT_MODEL);
    cfg.target_language = "a\"b\\c\n\u{1}".into();
    let text = session_update(&cfg, 7);
    assert!(text.contains(r#"{"language":"a\"b\\c\n\u0001"}"#));
    let update: serde_json::Value = serde_json::from_str(&text).unwrap();
    assert_eq!(update["session"]["translation"]["language"], "a\"b\\c\n\u{1}");
    assert_eq!(update["event_id"], "event_session_7");
}

#[test]
fn audio_and_finish_messages_are_numbered() {
    assert_eq!(
        audio_append(9, &[1, 2, 3]),
        r#"{"event_id":"event_audio_9","type":"input_audio_buffer.append","audio":"AQID"}"#
    );
    assert_eq!(finish(12), r#"{"event_id":"event_finish_12","type":"session.finish"}"#);
    let audio: serde_json::Value = serde_json::from_str(&audio_message(&[0, 0])).unwrap();
    assert_eq!(audio["audio"], "AAA=");
    assert!(audio["event_id"].as_str().is_some_and(|id| id.starts_with("event_audio_")));
    let closing: serde_json::Value = serde_json::from_str(&finish_message()).unwrap();
    assert_eq!(closing["type"], "session.finish");
}

#[test]
fn only_the_first_session_update_makes_the_session_ready() {
    let updated = r#"{"type":"session.updated","session":{}}"#;
    assert!(announces_ready(false, updated));
    assert!(!announces_ready(true, updated));
    assert!(!announces_ready(false, r#"{"type":"session.created"}"#));
    assert!(!announces_ready(false, "not json"));
}

#[test]
fn a_stop_waits_until_the_server_finishes() {
    let mut last_done: Option<String> = None;
    let (events, waiting) = drain_step(DrainInput::Other, &mut last_done);
    assert!(events.is_empty() && waiting);
    let (events, waiting) = drain_step(DrainInput::Over, &mut last_done);
    assert!(events.is_empty() && !waiting);
    let (events, waiting) = drain_step(DrainInput::Text(r#"{"type":"session.finished"}"#.into()), &mut last_done);
    assert!(events.is_empty() && !waiting);
    let (_, waiting) = drain_step(DrainInput::Text(r#"{"type":"session.updated"}"#.into()), &mut last_done);
    assert!(waiting);
    assert_eq!(FINISH_WAIT_MS, 3000);
}
