use overlingo::audio::{source_of, validate_route_id, AudioSource, CaptureRequest, CaptureSlots, Forwarder};
use overlingo::diagnostics::field;

#[test]
fn a_source_feeds_one_route_at_a_time() {
    let mut slots = CaptureSlots::new();
    assert!(slots.claim("system", AudioSource::System).is_ok());
    assert_eq!(
        slots.claim("other", AudioSource::System),
        Err("Audio source is already in use".to_string())
    );
    assert!(slots.claim("microphone", AudioSource::Microphone).is_ok());
    // A route restarting its own capture gives its source up first.
    assert!(slots.claim("system", AudioSource::System).is_ok());
    assert_eq!(slots.release("system"), Some(AudioSource::System));
    assert_eq!(slots.release("system"), None);
    assert!(slots.claim("other", AudioSource::System).is_ok());
}

#[test]
fn route_ids_are_short_and_plain() {
    assert!(validate_route_id("system").is_ok());
    assert!(validate_route_id("mic_2-a").is_ok());
    assert_eq!(validate_route_id(""), Err("Invalid audio route id".to_string()));
    assert!(validate_route_id("a b").is_err());
    assert!(validate_route_id(&"a".repeat(33)).is_err());
}

#[test]
fn a_request_names_its_source() {
    assert_eq!(source_of(&CaptureRequest::Microphone { device: None }), AudioSource::Microphone);
    assert_eq!(
        source_of(&CaptureRequest::System { application_bundle_id: Some("x".into()) }),
        AudioSource::System
    );
    assert_eq!(AudioSource::System.name(), "system");
    assert_eq!(AudioSource::Microphone.name(), "microphone");
}

#[test]
fn log_fields_drop_control_characters_and_stay_short() {
    assert_eq!(field("a\nb\tc"), "abc");
    assert_eq!(field(&"x".repeat(300)).len(), 240);
    assert_eq!(field(&format!("{}\n{}", "y".repeat(239), "zz")), format!("{}z", "y".repeat(239)));
}

#[test]
fn audio_is_handed_on_in_batches() {
    let mut forwarder = Forwarder::new(1_000, false);
    forwarder.take(vec![1, 2], 1_010);
    assert_eq!(forwarder.due(1_050), None);
    forwarder.take(vec![3], 1_100);
    assert_eq!(forwarder.due(1_120), Some(vec![1, 2, 3]));
    assert_eq!(forwarder.due(1_300), None);
    forwarder.take(vec![4], 1_310);
    assert_eq!(forwarder.due(1_200), None);
    assert_eq!(forwarder.drain(), Some(vec![4]));
    assert_eq!(forwarder.drain(), None);
}

#[test]
fn only_a_watched_stream_stalls() {
    let microphone = Forwarder::new(0, true);
    assert!(!microphone.stalled(4_999));
    assert!(microphone.stalled(5_000));
    let system = Forwarder::new(0, false);
    assert!(!system.stalled(60_000));
    let mut fed = Forwarder::new(0, true);
    fed.take(vec![0; 4], 4_000);
    assert!(!fed.stalled(8_999));
    assert!(fed.stalled(9_000));
    assert!(!fed.stalled(100));
}
