use overlingo::openai::{audio_append, build_session_update, handle_server_event, sanitize_error, OpenAiRealtimeConfig, Segments};
use overlingo::realtime::{Event, FragmentKind};

fn translations(events: &[Event]) -> Vec<(String, bool)> {
    events
        .iter()
        .filter_map(|event| match event {
            Event::Fragment { kind: FragmentKind::Translation, text, final_fragment } => {
                Some((text.clone(), *final_fragment))
            }
            _ => None,
        })
        .collect()
}

#[test]
fn deltas_are_joined_into_snapshots_and_reset_on_commit() {
    let mut collected = Vec::new();
    let mut segments = Segments::new();
    let delta = |value: &str| format!(r#"{{"type":"session.output_transcript.delta","delta":"{value}"}}"#);

    collected.extend(translations(&handle_server_event(&delta("hel"), &mut segments, 0)));
    collected.extend(translations(&handle_server_event(&delta("lo"), &mut segments, 10)));
    collected.extend(translations(&segments.commit()));
    collected.extend(translations(&segments.commit()));
    collected.extend(translations(&handle_server_event(&delta("bye"), &mut segments, 20)));

    assert_eq!(
        collected,
        vec![
            ("hel".into(), false),
            ("hello".into(), false),
            ("hello".into(), true),
            ("bye".into(), false),
        ]
    );
}

#[test]
fn a_commit_finalises_both_sides_at_once() {
    let mut segments = Segments::new();
    handle_server_event(r#"{"type":"session.input_transcript.delta","delta":"hola"}"#, &mut segments, 0);
    handle_server_event(r#"{"type":"session.output_transcript.delta","delta":"hello"}"#, &mut segments, 5);
    assert!(segments.due(2_000) || !segments.original.is_empty());
    let collected: Vec<(&str, String)> = segments
        .commit()
        .into_iter()
        .filter_map(|event| match event {
            Event::Fragment { kind, text, final_fragment: true } => Some((
                match kind {
                    FragmentKind::Original => "original",
                    FragmentKind::Translation => "translation",
                },
                text,
            )),
            _ => None,
        })
        .collect();
    assert_eq!(
        collected,
        vec![("original", "hola".to_string()), ("translation", "hello".to_string())]
    );
    assert!(!segments.due(100_000));
}

#[test]
fn openai_realtime_redacts_credentials_from_connection_errors() {
    let config = OpenAiRealtimeConfig {
        api_key: "secret-key".into(),
        target_language: "zh".into(),
    };
    let message = sanitize_error(&config, "request secret-key failed".into());
    assert_eq!(message, "request [redacted] failed");
}

#[test]
fn a_lull_or_an_old_segment_makes_a_commit_due() {
    let mut segments = Segments::new();
    assert!(!segments.due(1_000_000));
    segments.note_delta(1_000);
    assert!(!segments.due(2_000));
    assert!(segments.due(2_500));
    for at in (1_000..=11_000).step_by(1_000) {
        segments.note_delta(at);
    }
    assert!(segments.due(11_000));
}

#[test]
fn errors_and_closes_are_reported() {
    let mut segments = Segments::new();
    let events = handle_server_event(
        r#"{"type":"error","error":{"code":"invalid_api_key","message":"Bad key"}}"#,
        &mut segments,
        0,
    );
    match &events[..] {
        [Event::Error { message, retryable }] => {
            assert_eq!(message, "invalid_api_key: Bad key");
            assert!(!retryable);
        }
        _ => panic!("expected one error"),
    }
    let events = handle_server_event(r#"{"type":"error"}"#, &mut segments, 0);
    assert!(matches!(&events[..], [Event::Error { message, retryable: true }] if message == "OpenAI returned an unknown error"));
    let events = handle_server_event(r#"{"type":"session.closed"}"#, &mut segments, 0);
    assert!(matches!(&events[..], [Event::Closed(reason)] if reason == "session.closed"));
    assert!(handle_server_event(r#"{"type":"session.output_audio.delta","delta":"AAA"}"#, &mut segments, 0).is_empty());
}

#[test]
fn session_update_sets_the_output_language_only() {
    let config = OpenAiRealtimeConfig { api_key: "test".into(), target_language: "en".into() };
    let value: serde_json::Value = serde_json::from_str(&build_session_update(&config)).unwrap();
    assert_eq!(value["session"]["audio"]["output"]["language"], "en");
    assert!(value["session"]["audio"]["input"]["transcription"]["language"].is_null());
}

#[test]
fn an_openai_session_update_is_written_exactly() {
    let config = OpenAiRealtimeConfig { api_key: "test".into(), target_language: "ja".into() };
    assert_eq!(
        build_session_update(&config),
        [
            r#"{"type":"session.update","session":{"audio":{"input":{"transcription":"#,
            r#"{"model":"gpt-realtime-whisper"},"noise_reduction":{"type":"near_field"}},"#,
            r#""output":{"language":"ja"}}}}"#,
        ]
        .concat()
    );
}

#[test]
fn audio_travels_as_standard_base64() {
    assert_eq!(audio_append(b"Man"), r#"{"type":"session.input_audio_buffer.append","audio":"TWFu"}"#);
    assert_eq!(audio_append(b"Ma"), r#"{"type":"session.input_audio_buffer.append","audio":"TWE="}"#);
    assert_eq!(audio_append(b"M"), r#"{"type":"session.input_audio_buffer.append","audio":"TQ=="}"#);
    assert_eq!(audio_append(&[]), r#"{"type":"session.input_audio_buffer.append","audio":""}"#);
    assert_eq!(
        audio_append(&[0xfb, 0xff, 0x00, 0x10]),
        r#"{"type":"session.input_audio_buffer.append","audio":"+/8AEA=="}"#
    );
}
