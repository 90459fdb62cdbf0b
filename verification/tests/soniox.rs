use overlingo::realtime::{Event, FragmentKind};
use overlingo::soniox::{build_config, handle_server_message, sanitize_error, server_error, Segments, SonioxRealtimeConfig};

fn collect(into: &mut Vec<(String, String, bool)>, events: Vec<Event>) {
    for event in events {
        if let Event::Fragment { kind, text, final_fragment } = event {
            let kind = match kind {
                FragmentKind::Original => "original",
                FragmentKind::Translation => "translation",
            };
            into.push((kind.into(), text, final_fragment));
        }
    }
}

#[test]
fn pending_tokens_replace_instead_of_accumulating() {
    let mut collected = Vec::new();
    let mut segments = Segments::new();
    let (events, _) = handle_server_message(
        r#"{"tokens":[{"text":"He","is_final":false,"translation_status":"original"}]}"#,
        &mut segments,
    );
    collect(&mut collected, events);
    let (events, _) = handle_server_message(
        r#"{"tokens":[{"text":"Hello","is_final":false,"translation_status":"original"}]}"#,
        &mut segments,
    );
    collect(&mut collected, events);
    assert_eq!(
        collected,
        vec![
            ("original".into(), "He".into(), false),
            ("original".into(), "Hello".into(), false),
        ]
    );
}

#[test]
fn an_end_token_closes_both_streams_and_resets_them() {
    let mut collected = Vec::new();
    let mut segments = Segments::new();
    let (events, _) = handle_server_message(
        r#"{"tokens":[
            {"text":"Hello","is_final":true,"translation_status":"original"},
            {"text":"你好","is_final":true,"translation_status":"translation"},
            {"text":"<end>","is_final":true}
        ]}"#,
        &mut segments,
    );
    collect(&mut collected, events);
    let (events, _) = handle_server_message(
        r#"{"tokens":[{"text":"Bye","is_final":false,"translation_status":"original"}]}"#,
        &mut segments,
    );
    collect(&mut collected, events);
    assert_eq!(
        collected,
        vec![
            ("original".into(), "Hello".into(), true),
            ("translation".into(), "你好".into(), true),
            ("original".into(), "Bye".into(), false),
        ]
    );
}

#[test]
fn a_message_with_no_tokens_emits_nothing() {
    let mut segments = Segments::new();
    let (events, finished) = handle_server_message(r#"{"tokens":[]}"#, &mut segments);
    assert!(events.is_empty());
    assert!(!finished);
}

#[test]
fn a_rejected_key_ends_the_session_without_a_retry() {
    let error = server_error(
        r#"{"tokens":[],"error_code":401,"error_type":"unauthorized","error_message":"bad key"}"#,
    );
    assert!(matches!(
        error,
        Some(Event::Error { ref message, retryable: false }) if message == "unauthorized: bad key"
    ));
}

#[test]
fn a_server_outage_is_worth_retrying() {
    let error = server_error(r#"{"tokens":[],"error_code":503,"error_type":"service_unavailable"}"#);
    assert!(matches!(error, Some(Event::Error { retryable: true, .. })));
}

#[test]
fn an_error_ends_the_session_and_a_bare_code_is_still_reported() {
    let mut segments = Segments::new();
    let (events, finished) = handle_server_message(r#"{"error_code":500}"#, &mut segments);
    assert!(finished);
    assert!(matches!(&events[..], [Event::Error { message, retryable: true }] if message == "Soniox returned error 500"));
}

#[test]
fn a_token_without_text_does_not_swallow_the_rest() {
    let mut collected = Vec::new();
    let mut segments = Segments::new();
    let (events, _) = handle_server_message(
        r#"{"tokens":[{"is_final":true},{"text":"ok","is_final":true,"translation_status":"original"}]}"#,
        &mut segments,
    );
    collect(&mut collected, events);
    assert_eq!(collected, vec![("original".into(), "ok".into(), false)]);
}

#[test]
fn the_key_never_reaches_an_error() {
    let config = SonioxRealtimeConfig {
        api_key: "k-1".into(),
        source_language: "en".into(),
        target_language: "zh".into(),
    };
    assert_eq!(sanitize_error(&config, "bad k-1".into()), "bad [redacted]");
}

#[test]
fn config_requests_both_directions_as_raw_pcm() {
    let config = SonioxRealtimeConfig {
        api_key: "test".into(),
        source_language: "en".into(),
        target_language: "zh".into(),
    };
    let value: serde_json::Value = serde_json::from_str(&build_config(&config)).unwrap();
    assert_eq!(value["audio_format"], "pcm_s16le");
    assert_eq!(value["sample_rate"], 16_000);
    assert_eq!(value["language_hints"][0], "en");
    assert_eq!(value["translation"]["target_language"], "zh");
    assert_eq!(value["enable_endpoint_detection"], true);
}

#[test]
fn the_soniox_config_carries_the_key_and_model() {
    let config = SonioxRealtimeConfig {
        api_key: "k\"1".into(),
        source_language: "en".into(),
        target_language: "zh".into(),
    };
    let value: serde_json::Value = serde_json::from_str(&build_config(&config)).unwrap();
    assert_eq!(value["api_key"], "k\"1");
    assert_eq!(value["model"], "stt-rt-v5");
    assert_eq!(value["num_channels"], 1);
    assert_eq!(value["translation"]["type"], "one_way");
}
