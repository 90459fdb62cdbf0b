use overlingo::config::{AppConfig, ApplicationReference};
use overlingo::route::{ActiveRoute, AudioBridge, CaptureKey, ProviderKey, Session, BACKLOG_LIMIT_BYTES};
use overlingo::state::RouteState;

fn qwen_config() -> AppConfig {
    let mut config = AppConfig::default();
    config.routes.system.engine = "qwen".into();
    config.routes.microphone.engine = "qwen".into();
    config
}

fn capturing_zoom(config: &AppConfig) -> AppConfig {
    let mut changed = config.duplicate();
    changed.audio.system.scope = "application".into();
    changed.audio.system.application = Some(ApplicationReference {
        bundle_id: "us.zoom.xos".into(),
        name: "Zoom".into(),
    });
    changed
}

#[test]
fn capture_target_does_not_rebuild_the_provider() {
    let config = qwen_config();
    let changed = capturing_zoom(&config);
    assert_eq!(
        ProviderKey::new(&config, &config.routes.system),
        ProviderKey::new(&changed, &changed.routes.system)
    );
    assert_ne!(
        CaptureKey::new(&config, &config.routes.system),
        CaptureKey::new(&changed, &changed.routes.system)
    );
}

#[test]
fn microphone_device_only_rekeys_the_microphone_route() {
    let config = AppConfig::default();
    let mut changed = config.duplicate();
    changed.audio.microphone.device = Some("USB Microphone".into());

    assert_ne!(
        CaptureKey::new(&config, &config.routes.microphone),
        CaptureKey::new(&changed, &changed.routes.microphone)
    );
    assert_eq!(
        CaptureKey::new(&config, &config.routes.system),
        CaptureKey::new(&changed, &changed.routes.system)
    );
}

#[test]
fn capture_target_never_touches_the_microphone_route() {
    let config = qwen_config();
    let changed = capturing_zoom(&config);
    assert_eq!(
        CaptureKey::new(&config, &config.routes.microphone),
        CaptureKey::new(&changed, &changed.routes.microphone)
    );
}

#[test]
fn language_change_rebuilds_the_provider_only() {
    let config = qwen_config();
    let mut changed = config.duplicate();
    changed.routes.system.target_language = "ja".into();
    assert_ne!(
        ProviderKey::new(&config, &config.routes.system),
        ProviderKey::new(&changed, &changed.routes.system)
    );
    assert_eq!(
        CaptureKey::new(&config, &config.routes.system),
        CaptureKey::new(&changed, &changed.routes.system)
    );
}

#[test]
fn qwen_settings_leave_openai_routes_alone() {
    let mut config = qwen_config();
    config.routes.microphone.engine = "openai".into();
    let mut changed = config.duplicate();
    changed.qwen.workspace_id = "ws-123".into();
    assert_ne!(
        ProviderKey::new(&config, &config.routes.system),
        ProviderKey::new(&changed, &changed.routes.system)
    );
    assert_eq!(
        ProviderKey::new(&config, &config.routes.microphone),
        ProviderKey::new(&changed, &changed.routes.microphone)
    );
}

fn active_route() -> ActiveRoute {
    let config = qwen_config();
    let route = config.routes.system.duplicate();
    ActiveRoute::new(
        "system",
        route.duplicate(),
        ProviderKey::new(&config, &route),
        CaptureKey::new(&config, &route),
    )
}

fn session(token: u64, ready: bool) -> Session {
    Session { handle: token, token, ready }
}

#[test]
fn a_pending_session_never_answers_for_the_live_one() {
    let mut route = active_route();
    route.provider = Some(session(1, true));
    route.pending = Some(session(2, false));

    assert!(route.owns(1));
    assert!(!route.owns_pending(1));
    assert!(route.owns_pending(2));
    assert!(!route.owns(2));
    assert_eq!(route.handles().len(), 2);
}

#[test]
fn a_route_is_live_only_with_both_halves() {
    let mut route = active_route();
    route.provider = Some(session(1, true));
    route.refresh_state();
    assert_eq!(route.state, RouteState::Connecting);

    route.capture_ready = true;
    route.refresh_state();
    assert_eq!(route.state, RouteState::Live);
}

#[test]
fn only_a_delivered_fragment_refills_the_retry_budget() {
    let mut route = active_route();
    route.reconnect_attempt = 2;
    route.reconfiguring = true;
    route.provider = Some(session(1, true));
    route.capture_ready = true;
    route.refresh_state();

    assert_eq!(route.state, RouteState::Live);
    assert!(!route.reconfiguring);
    assert_eq!(route.reconnect_attempt, 2);

    route.mark_working();
    assert_eq!(route.reconnect_attempt, 0);
}

#[test]
fn a_route_awaiting_retry_keeps_its_label() {
    for label in [RouteState::Failed, RouteState::Reconnecting] {
        let mut route = active_route();
        route.state = label;
        route.refresh_state();
        assert_eq!(route.state, label);
    }
}

#[test]
fn a_reconfiguring_route_is_not_reported_as_reconnecting() {
    let mut route = active_route();
    route.reconfiguring = true;
    route.reconnect_attempt = 1;
    route.provider = Some(session(1, false));
    route.refresh_state();
    assert_eq!(route.state, RouteState::Reconfiguring);
}

#[test]
fn backlog_keeps_the_newest_audio_within_the_limit() {
    let mut bridge = AudioBridge::new();
    for marker in 0..100_u8 {
        assert!(bridge.push(vec![marker; 12_800]).is_none());
    }
    assert!(bridge.backlog_bytes() <= BACKLOG_LIMIT_BYTES);
    assert_eq!(bridge.backlog_bytes(), bridge.backlog_sizes().iter().sum::<usize>());
    assert_eq!(bridge.newest_first_byte(), Some(99));
}

#[test]
fn an_attached_bridge_replays_the_backlog_and_then_forwards() {
    let mut bridge = AudioBridge::new();
    bridge.push(vec![1, 2]);
    bridge.push(vec![3]);
    let replay = bridge.attach(7);
    assert_eq!(replay, vec![vec![1, 2], vec![3]]);
    assert_eq!(bridge.backlog_bytes(), 0);
    assert_eq!(bridge.push(vec![4]), Some((7, vec![4])));
    bridge.detach();
    assert!(bridge.push(vec![5]).is_none());
    assert_eq!(bridge.backlog_sizes(), vec![1]);
}

#[test]
fn an_oversized_chunk_is_never_held() {
    let mut bridge = AudioBridge::new();
    bridge.push(vec![1; 10]);
    bridge.push(vec![0; BACKLOG_LIMIT_BYTES + 1]);
    assert_eq!(bridge.backlog_bytes(), 0);
    assert!(bridge.backlog_sizes().is_empty());
}

#[test]
fn a_torn_down_route_retries_three_times_then_fails() {
    let mut route = active_route();
    route.provider = Some(session(1, true));
    route.pending = Some(session(2, false));
    let (retired, retrying) = route.tear_down("blip".into(), true);
    assert_eq!(retired, vec![1, 2]);
    assert!(retrying);
    assert_eq!(route.state, RouteState::Reconnecting);
    assert!(route.provider.is_none() && route.pending.is_none());
    route.tear_down("blip".into(), true);
    route.tear_down("blip".into(), true);
    assert_eq!(route.reconnect_attempt, 3);
    let (_, retrying) = route.tear_down("blip".into(), true);
    assert!(!retrying);
    assert_eq!(route.state, RouteState::Failed);
    assert_eq!(route.error, "blip");
}

#[test]
fn a_promoted_session_takes_over_with_a_fresh_budget() {
    let mut route = active_route();
    route.provider = Some(session(1, true));
    route.pending = Some(session(2, false));
    route.reconfiguring = true;
    route.reconnect_attempt = 2;
    let (promoted, retired, _) = route.promote_pending("system", 9).unwrap();
    assert_eq!(promoted, Session { handle: 2, token: 9, ready: true });
    assert_eq!(retired, Some(session(1, true)));
    assert_eq!(route.provider, Some(promoted));
    assert!(route.pending.is_none() && !route.reconfiguring);
    assert_eq!(route.reconnect_attempt, 0);
}
