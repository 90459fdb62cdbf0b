use overlingo::config::AppConfig;
use overlingo::journal::{unique_engines, Journal};
use overlingo::session_store::{elapsed_label, SessionRoute};
use overlingo::transcript::TranscriptTurn;

#[test]
fn records_active_duration() {
    let mut journal = Journal::new(&AppConfig::default());
    journal.finish(75_000);

    assert_eq!(journal.data().duration_sec, 75);
    assert_eq!(elapsed_label(75_000 / 1000), "00:01:15");
}

fn turn(text: &str) -> TranscriptTurn {
    TranscriptTurn {
        kind: "turn".into(),
        route_id: "system".into(),
        original: text.into(),
        translation: format!("{text}!"),
        timestamp: String::new(),
        engine: "qwen".into(),
        model: "m".into(),
        source_language: "en".into(),
        target_language: "zh".into(),
    }
}

#[test]
fn an_empty_journal_leaves_no_record() {
    let journal = Journal::new(&AppConfig::default());
    assert!(journal.record().is_none());
}

#[test]
fn every_turn_lands_in_the_record_with_its_session_time() {
    let mut config = AppConfig::default();
    config.routes.system.engine = "qwen".into();
    config.routes.microphone.engine = "qwen".into();
    let mut journal = Journal::new_at(&config, 1_704_103_810_000);
    journal.add(turn("a"), 3_400);
    journal.add(turn("b"), 61_000);
    let (id, markdown, data) = journal.record().unwrap();
    assert_eq!(id, "20240101-101010-000");
    assert_eq!(data.id, id);
    assert_eq!(data.created_at, "2024-01-01T10:10:10.000Z");
    assert_eq!(data.engine, "qwen");
    assert_eq!(data.duration_sec, 61);
    let segments = &data.chunks[0].segments;
    assert_eq!(segments.len(), 2);
    assert_eq!(segments[0].ts, "00:00:03");
    assert_eq!(segments[1].ts, "00:01:01");
    assert_eq!(segments[1].tgt, "b!");
    assert!(markdown.contains("**en**  a"));
}

#[test]
fn each_engine_is_named_once() {
    let route = |engine: &str| SessionRoute {
        id: "r".into(),
        input: "system".into(),
        engine: engine.into(),
        model: "m".into(),
        source_lang: "en".into(),
        target_lang: "zh".into(),
    };
    assert_eq!(unique_engines(&vec![route("qwen"), route("qwen")]), "qwen");
    assert_eq!(unique_engines(&vec![route("qwen"), route("openai")]), "qwen+openai");
    assert_eq!(unique_engines(&vec![]), "");
}
