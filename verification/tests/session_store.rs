use overlingo::session_store::{
    check_persist, elapsed_label, is_text_before, newest_first, SessionListItem, export_file_name, is_session_file, render_markdown,
    render_transcript, render_transcript_stamped, session_file_names, valid_title, validate_id,
    Chunk, ExportMode, RouteLabels, Segment, SessionData,
};

fn sample() -> SessionData {
    SessionData {
        schema_version: 1,
        id: "20240101-101010-000".into(),
        created_at: "2024-01-01T10:10:10.000Z".into(),
        ended_at: None,
        title: "2024-01-01 10:10".into(),
        engine: "qwen".into(),
        source_lang: "en".into(),
        target_lang: "zh".into(),
        duration_sec: 12,
        routes: Vec::new(),
        chunks: vec![Chunk {
            started_at: "2024-01-01T10:10:10.000Z".into(),
            ended_at: None,
            segments: vec![Segment {
                ts: "00:00:03".into(),
                src: "Hello".into(),
                tgt: "你好".into(),
                route_id: "system".into(),
                engine: "qwen".into(),
                source_lang: "en".into(),
                target_lang: "zh".into(),
            }],
        }],
    }
}

fn labels() -> RouteLabels {
    RouteLabels {
        system: "系统音频".into(),
        microphone: "麦克风".into(),
    }
}

#[test]
fn export_modes_keep_only_the_requested_side() {
    let data = sample();

    let source = render_transcript(&data, ExportMode::Source, &labels());
    assert!(source.contains("Hello"));
    assert!(!source.contains("你好"));

    let target = render_transcript(&data, ExportMode::Target, &labels());
    assert!(target.contains("你好"));
    assert!(!target.contains("Hello"));

    let both = render_transcript(&data, ExportMode::Both, &labels());
    assert!(both.contains("Hello") && both.contains("你好"));
}

#[test]
fn transcript_reads_as_a_plain_timeline() {
    let transcript = render_transcript(&sample(), ExportMode::Both, &labels());
    let lines = transcript.lines().collect::<Vec<_>>();

    assert_eq!(lines[0], "2024-01-01 10:10");
    assert!(lines[1].ends_with("· 00:00:12"));
    assert_eq!(lines[2], "");
    assert_eq!(lines[3], "[00:00:03] 系统音频");
    assert_eq!(lines[4], "Hello");
    assert_eq!(lines[5], "你好");
}

#[test]
fn route_labels_fall_back_to_the_stored_identifier() {
    assert_eq!(RouteLabels::new().name("microphone"), "microphone");
    assert_eq!(labels().name("microphone"), "麦克风");
}

#[test]
fn archived_markdown_keeps_both_languages() {
    let markdown = render_markdown(&sample(), ExportMode::Both);
    assert!(markdown.contains("**en**  Hello") && markdown.contains("**zh**  你好"));
}

#[test]
fn export_file_name_drops_path_separators() {
    assert_eq!(export_file_name("2024-01-01 10:10"), "2024-01-01 10-10.txt");
    assert_eq!(export_file_name("a/b\\c"), "a-b-c.txt");
    assert_eq!(export_file_name("  "), "session.txt");
}

#[test]
fn a_stamped_transcript_is_exact() {
    let transcript = render_transcript_stamped(&sample(), ExportMode::Target, &labels(), "today");
    assert_eq!(transcript, "2024-01-01 10:10\ntoday · 00:00:12\n\n[00:00:03] 系统音频\n你好\n");
}

#[test]
fn a_turn_with_nothing_kept_is_left_out() {
    let mut data = sample();
    data.chunks[0].segments[0].tgt = String::new();
    let transcript = render_transcript_stamped(&data, ExportMode::Target, &labels(), "t");
    assert_eq!(transcript, "2024-01-01 10:10\nt · 00:00:12\n");
}

#[test]
fn markdown_is_exact() {
    assert_eq!(
        render_markdown(&sample(), ExportMode::Both),
        "# 2024-01-01 10:10\n\n2024-01-01T10:10:10.000Z\n\n## 00:00:03 · system\n\n**en**  Hello\n**zh**  你好\n"
    );
}

#[test]
fn elapsed_labels_count_hours_minutes_and_seconds() {
    assert_eq!(elapsed_label(0), "00:00:00");
    assert_eq!(elapsed_label(75), "00:01:15");
    assert_eq!(elapsed_label(3_600 * 123 + 61), "123:01:01");
}

#[test]
fn dots_and_controls_are_trimmed_from_file_names() {
    assert_eq!(export_file_name("..notes.."), "notes.txt");
    assert_eq!(export_file_name("a\tb"), "a-b.txt");
    assert_eq!(export_file_name(" . "), "session.txt");
}

#[test]
fn identifiers_and_titles_are_checked() {
    assert!(validate_id("20240101-101010-000").is_ok());
    assert_eq!(validate_id(""), Err("Invalid session ID".to_string()));
    assert_eq!(validate_id("../x"), Err("Invalid session ID".to_string()));
    assert!(validate_id(&"a".repeat(65)).is_err());
    assert_eq!(valid_title("  Meeting  "), Ok("Meeting".to_string()));
    assert_eq!(valid_title("   "), Err("Invalid session title".to_string()));
    assert!(valid_title(&"x".repeat(121)).is_err());
    assert!(valid_title(&"字".repeat(120)).is_ok());
}

#[test]
fn a_record_is_written_only_under_its_own_identifier() {
    let data = sample();
    assert!(check_persist("20240101-101010-000", &data).is_ok());
    assert_eq!(check_persist("other", &data), Err("Session ID mismatch".to_string()));
    assert_eq!(check_persist("a/b", &data), Err("Invalid session ID".to_string()));
}

#[test]
fn record_files_are_named_after_the_identifier() {
    let (md, json) = session_file_names("abc");
    assert_eq!(md, "session-abc.md");
    assert_eq!(json, "session-abc.json");
    assert!(is_session_file("session-abc.json"));
    assert!(!is_session_file("session-abc.md"));
    assert!(!is_session_file("notes.json"));
}

fn item(id: &str, created_at: &str) -> SessionListItem {
    SessionListItem { id: id.into(), title: id.into(), created_at: created_at.into(), duration_sec: 0 }
}

#[test]
fn the_session_list_runs_newest_first() {
    let items = vec![
        item("b", "2024-01-02T09:00:00.000Z"),
        item("a", "2024-01-01T10:10:10.000Z"),
        item("c", "2024-03-01T00:00:00.000Z"),
    ];
    let ids: Vec<String> = newest_first(items).into_iter().map(|item| item.id).collect();
    assert_eq!(ids, vec!["c", "b", "a"]);
    assert!(newest_first(Vec::new()).is_empty());
}

#[test]
fn text_order_is_by_code_point_with_prefixes_first() {
    assert!(is_text_before("2024-01-01", "2024-01-02"));
    assert!(!is_text_before("2024-01-02", "2024-01-01"));
    assert!(is_text_before("abc", "abcd"));
    assert!(!is_text_before("abc", "abc"));
    assert!(is_text_before("Z", "a"));
    assert_eq!(is_text_before("é", "z"), "é" < "z");
}
