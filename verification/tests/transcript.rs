use overlingo::config::{AppConfig, RouteConfig};
use overlingo::realtime::FragmentKind;
use overlingo::transcript::TurnAssembler;

#[test]
fn pairs_final_fragments_in_order() {
    let route = AppConfig::default().routes.system;
    let mut assembler = TurnAssembler::new("system", &route);
    assembler.push(FragmentKind::Original, "one".into(), true);
    let (outputs, _) = assembler.push(FragmentKind::Translation, "一".into(), true);
    assert_eq!(outputs.first().unwrap().translation, "一");
}

#[test]
fn draft_tracks_the_latest_snapshot() {
    let base = AppConfig::default().routes.system;
    for engine in ["qwen", "openai"] {
        let route = RouteConfig {
            engine: engine.into(),
            ..base.duplicate()
        };
        let mut assembler = TurnAssembler::new("system", &route);
        assembler.push(FragmentKind::Translation, "hel".into(), false);
        assembler.push(FragmentKind::Translation, "hello".into(), false);
        assert_eq!(assembler.draft().translation, "hello", "{engine}");
    }
}

#[test]
fn one_side_waits_for_the_other_and_a_flush_closes_it_out() {
    let route = AppConfig::default().routes.system;
    let mut assembler = TurnAssembler::new("system", &route);
    let (outputs, version) = assembler.push(FragmentKind::Original, " first ".into(), true);
    assert!(outputs.is_empty());
    let version = version.unwrap();
    let (outputs, _) = assembler.push(FragmentKind::Original, "second".into(), true);
    assert!(outputs.is_empty());
    assert!(assembler.flush(version).is_empty());
    let turns = assembler.flush_all();
    assert_eq!(turns.len(), 2);
    assert_eq!(turns[0].original, "first");
    assert_eq!(turns[0].translation, "");
    assert_eq!(turns[1].original, "second");
}

#[test]
fn blank_fragments_change_nothing() {
    let route = AppConfig::default().routes.system;
    let mut assembler = TurnAssembler::new("system", &route);
    let (outputs, version) = assembler.push(FragmentKind::Original, "   ".into(), true);
    assert!(outputs.is_empty() && version.is_none());
    assert!(assembler.flush_all().is_empty());
}
