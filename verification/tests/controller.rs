use overlingo::config::AppConfig;
use overlingo::controller::{
    apply_route_settings, is_surface, may_switch, validate_start, ControllerRequest, RouteSettingsPatch,
    RouteSlot, TranslationCommand,
};
use overlingo::credentials::CredentialStore;
use overlingo::realtime::{Event, FragmentKind};
use overlingo::session::{AfterSave, Controller, Effect};
use overlingo::state::{RouteState, TranslationState};

fn ready_config() -> AppConfig {
    let mut config = AppConfig::default();
    config.routes.microphone.enabled = false;
    config.routes.system.engine = "soniox".into();
    config.routes.system.model = "stt-rt-v5".into();
    config.routes.system.source_language = "en".into();
    config.routes.system.target_language = "zh".into();
    config
}

fn credentials() -> CredentialStore {
    let mut store = CredentialStore::default();
    store.set_for_test("soniox", "sk");
    store
}

fn start(controller: &mut Controller) -> Vec<Effect> {
    controller.handle_request(
        ControllerRequest::Translation { command: TranslationCommand::Start },
        &credentials(),
    )
}

fn provider_token(effects: &[Effect]) -> u64 {
    effects
        .iter()
        .find_map(|effect| match effect {
            Effect::StartProvider { token, .. } => Some(*token),
            _ => None,
        })
        .expect("a provider is dialled")
}

fn capture_token(effects: &[Effect]) -> u64 {
    effects
        .iter()
        .find_map(|effect| match effect {
            Effect::StartCapture { token, .. } => Some(*token),
            _ => None,
        })
        .expect("a capture is started")
}

#[test]
fn a_start_without_a_source_is_refused_with_a_notice() {
    let mut config = ready_config();
    config.routes.system.enabled = false;
    assert_eq!(validate_start(&config, &credentials()), Some("chooseAudioSource"));
    let mut controller = Controller::new(config);
    let effects = start(&mut controller);
    assert_eq!(controller.translation_state, TranslationState::Stopped);
    assert_eq!(controller.notice.as_ref().unwrap().code.as_deref(), Some("chooseAudioSource"));
    assert!(effects.iter().any(|effect| matches!(effect, Effect::ShowSettings)));
}

#[test]
fn a_missing_key_blocks_the_start() {
    assert_eq!(
        validate_start(&ready_config(), &CredentialStore::default()),
        Some("missingCredential")
    );
    assert_eq!(validate_start(&ready_config(), &credentials()), None);
}

#[test]
fn a_session_goes_live_once_both_halves_are_up() {
    let mut controller = Controller::new(ready_config());
    let effects = start(&mut controller);
    assert_eq!(controller.translation_state, TranslationState::Starting);
    let provider = provider_token(&effects);
    let capture = capture_token(&effects);

    controller.provider_started(RouteSlot::System, provider, false, Ok(41));
    let effects = controller.handle_provider_event(RouteSlot::System, provider, Event::Ready);
    assert!(effects.iter().any(|effect| matches!(effect, Effect::AttachBridge { handle: 41, .. })));
    assert_eq!(controller.system.as_ref().unwrap().state, RouteState::Connecting);

    controller.capture_started(RouteSlot::System, capture, Ok(()));
    assert_eq!(controller.system.as_ref().unwrap().state, RouteState::Live);
    assert_eq!(controller.translation_state, TranslationState::Running);

    controller.handle_provider_event(
        RouteSlot::System,
        provider,
        Event::fragment(FragmentKind::Original, "hello".into(), true),
    );
    let effects = controller.handle_provider_event(
        RouteSlot::System,
        provider,
        Event::fragment(FragmentKind::Translation, "你好".into(), true),
    );
    assert_eq!(controller.system_turns.len(), 1);
    assert!(effects.iter().any(|effect| matches!(effect, Effect::PersistJournal { .. })));

    controller.handle_request(
        ControllerRequest::Translation { command: TranslationCommand::Stop },
        &credentials(),
    );
    assert_eq!(controller.translation_state, TranslationState::Stopped);
    assert!(controller.system.is_none());
}

#[test]
fn a_dropped_session_retries_and_stale_reports_are_ignored() {
    let mut controller = Controller::new(ready_config());
    let effects = start(&mut controller);
    let provider = provider_token(&effects);
    controller.provider_started(RouteSlot::System, provider, false, Ok(7));

    assert!(controller
        .handle_provider_event(RouteSlot::System, provider + 100, Event::Closed("x".into()))
        .is_empty());

    let effects = controller.handle_provider_event(RouteSlot::System, provider, Event::Closed("gone".into()));
    let route = controller.system.as_ref().unwrap();
    assert_eq!(route.state, RouteState::Reconnecting);
    assert_eq!(route.reconnect_attempt, 1);
    assert!(route.provider.is_none());
    let retry = effects
        .iter()
        .find_map(|effect| match effect {
            Effect::ScheduleReconnect { retry, .. } => Some(*retry),
            _ => None,
        })
        .unwrap();
    assert!(effects.iter().any(|effect| matches!(effect, Effect::StopProvider { handle: 7 })));

    assert!(controller.reconnect(RouteSlot::System, retry + 1).is_empty());
    let effects = controller.reconnect(RouteSlot::System, retry);
    assert!(effects.iter().any(|effect| matches!(effect, Effect::StartProvider { .. })));
}

#[test]
fn a_rejected_key_fails_the_route_at_once() {
    let mut controller = Controller::new(ready_config());
    let effects = start(&mut controller);
    let provider = provider_token(&effects);
    controller.provider_started(RouteSlot::System, provider, false, Ok(7));
    controller.handle_provider_event(
        RouteSlot::System,
        provider,
        Event::Error { message: "401 unauthorized".into(), retryable: false },
    );
    let route = controller.system.as_ref().unwrap();
    assert_eq!(route.state, RouteState::Failed);
    assert_eq!(controller.translation_state, TranslationState::Failed);
    assert_eq!(controller.notice.as_ref().unwrap().message, "401 unauthorized");
}

#[test]
fn the_last_source_stays_on() {
    let config = ready_config();
    assert!(!may_switch(&config, "system", false));
    assert!(may_switch(&config, "microphone", true));
    let mut controller = Controller::new(config);
    let effects = controller.handle_request(
        ControllerRequest::Route { route_id: "system".into(), enabled: false },
        &credentials(),
    );
    assert!(effects.is_empty());
    assert!(controller.config.routes.system.enabled);
}

#[test]
fn an_unknown_model_is_rejected_and_a_known_one_picks_its_engine() {
    let mut route = ready_config().routes.system;
    let rejected = apply_route_settings(
        &mut route,
        RouteSettingsPatch { model: Some("gemini-live".into()), source_language: None, target_language: None },
    );
    assert!(!rejected);
    assert_eq!(route.model, "stt-rt-v5");
    let applied = apply_route_settings(
        &mut route,
        RouteSettingsPatch {
            model: Some("gpt-realtime-translate".into()),
            source_language: None,
            target_language: Some("nl".into()),
        },
    );
    assert!(applied);
    assert_eq!(route.engine, "openai");
    assert_eq!(route.target_language, "nl");
}

#[test]
fn a_pause_holds_and_a_resume_reopens() {
    let mut controller = Controller::new(ready_config());
    let effects = start(&mut controller);
    let provider = provider_token(&effects);
    let capture = capture_token(&effects);
    controller.provider_started(RouteSlot::System, provider, false, Ok(1));
    controller.handle_provider_event(RouteSlot::System, provider, Event::Ready);
    controller.capture_started(RouteSlot::System, capture, Ok(()));
    assert_eq!(controller.translation_state, TranslationState::Running);

    controller.handle_request(
        ControllerRequest::Translation { command: TranslationCommand::Pause },
        &credentials(),
    );
    assert_eq!(controller.translation_state, TranslationState::Paused);
    assert!(controller.system.is_none());
    let effects = controller.handle_request(
        ControllerRequest::Translation { command: TranslationCommand::Resume },
        &credentials(),
    );
    assert_eq!(controller.translation_state, TranslationState::Starting);
    assert!(effects.iter().any(|effect| matches!(effect, Effect::StartCapture { .. })));
}

#[test]
fn a_timer_for_an_old_session_does_nothing() {
    let mut controller = Controller::new(ready_config());
    start(&mut controller);
    let generation = controller.session_generation;
    assert!(controller.tick(generation + 1).is_empty());
    assert_eq!(controller.tick(generation).len(), 2);
}

#[test]
fn only_the_known_surfaces_subscribe() {
    for surface in ["main", "overlay", "toolbar", "panel"] {
        assert!(is_surface(surface));
    }
    assert!(!is_surface("settings"));
    assert!(!is_surface(""));
    assert!(!is_surface("Main"));
}

#[test]
fn overlay_requests_show_hide_and_remember() {
    let mut controller = Controller::new(ready_config());
    controller.handle_request(ControllerRequest::ToggleOverlay, &credentials());
    assert!(controller.overlay_visible);
    assert!(controller.config.overlay.enabled);
    let effects = controller.handle_request(ControllerRequest::Hide, &credentials());
    assert!(!controller.overlay_visible);
    assert!(!controller.config.overlay.enabled);
    assert!(effects.iter().any(|effect| matches!(effect, Effect::ShowOverlay { visible: false })));
    assert!(effects.iter().any(|effect| matches!(effect, Effect::SaveConfig { .. })));
}

#[test]
fn capture_options_are_loaded_once_at_a_time() {
    let mut controller = Controller::new(ready_config());
    let effects = controller.handle_request(ControllerRequest::RequestCaptureOptions, &credentials());
    assert!(matches!(effects.as_slice(), [Effect::Publish, Effect::LoadCaptureOptions]));
    assert!(controller.capture_loading);
    assert!(controller.handle_request(ControllerRequest::RequestCaptureOptions, &credentials()).is_empty());
    controller.capture_options_loaded(Ok((Vec::new(), vec!["Built-in".to_string()])));
    assert!(!controller.capture_loading);
    assert_eq!(controller.capture_microphones, vec!["Built-in".to_string()]);
}

#[test]
fn settings_requests_change_only_what_they_name() {
    let mut controller = Controller::new(ready_config());
    controller.handle_request(ControllerRequest::Locale { locale: "klingon".into() }, &credentials());
    assert_eq!(controller.config.locale, AppConfig::default().locale);
    controller.handle_request(ControllerRequest::Locale { locale: "ja".into() }, &credentials());
    assert_eq!(controller.config.locale, "ja");
    controller.handle_request(ControllerRequest::MicrophoneDevice { device: "USB".into() }, &credentials());
    assert_eq!(controller.config.audio.microphone.device.as_deref(), Some("USB"));
    controller.handle_request(ControllerRequest::MicrophoneDevice { device: String::new() }, &credentials());
    assert_eq!(controller.config.audio.microphone.device, None);
}

#[test]
fn exit_stops_the_session_and_saves_before_quitting() {
    let mut controller = Controller::new(ready_config());
    start(&mut controller);
    assert!(controller.system.is_some());
    let effects = controller.handle_request(ControllerRequest::Exit, &credentials());
    assert!(controller.system.is_none());
    assert_eq!(controller.translation_state, TranslationState::Stopped);
    assert!(matches!(effects.last(), Some(Effect::SaveConfig { then: AfterSave::Exit, .. })));
}

#[test]
fn a_flush_from_an_old_session_only_republishes() {
    let mut controller = Controller::new(ready_config());
    let effects = start(&mut controller);
    let provider = provider_token(&effects);
    controller.provider_started(RouteSlot::System, provider, false, Ok(3));
    let effects = controller.flush_route(RouteSlot::System, provider + 1, 0);
    assert!(matches!(effects.as_slice(), [Effect::Publish]));
    assert!(controller.system_turns.is_empty());
}

#[test]
fn a_failed_capture_start_fails_the_route_for_good() {
    let mut controller = Controller::new(ready_config());
    let effects = start(&mut controller);
    let capture = capture_token(&effects);
    controller.capture_started(RouteSlot::System, capture, Err("no device".into()));
    let route = controller.system.as_ref().unwrap();
    assert_eq!(route.state, RouteState::Failed);
    assert!(route.capture.is_none());
    assert_eq!(route.error, "no device");
    assert_eq!(controller.notice.as_ref().unwrap().message, "no device");
}

#[test]
fn the_snapshot_shows_both_routes() {
    let mut controller = Controller::new(ready_config());
    start(&mut controller);
    let snapshot = controller.snapshot(vec![("soniox".to_string(), true)]);
    assert_eq!(snapshot.routes.len(), 2);
    assert_eq!(snapshot.routes[0].route_id, "system");
    assert_eq!(snapshot.routes[1].route_id, "microphone");
    assert_eq!(snapshot.routes[1].state, RouteState::Stopped);
    assert_eq!(snapshot.credentials, vec![("soniox".to_string(), true)]);
    assert_eq!(snapshot.routes[0].config.engine, "soniox");
}

fn saved_config(effects: &[Effect]) -> (AppConfig, AfterSave) {
    effects
        .iter()
        .find_map(|effect| match effect {
            Effect::SaveConfig { config, then } => Some((config.duplicate(), *then)),
            _ => None,
        })
        .expect("the settings are saved")
}

#[test]
fn a_language_change_rebuilds_only_the_translator() {
    let mut controller = Controller::new(ready_config());
    let effects = start(&mut controller);
    let provider = provider_token(&effects);
    controller.provider_started(RouteSlot::System, provider, false, Ok(5));

    let effects = controller.handle_request(
        ControllerRequest::RouteSettings {
            route_id: "system".into(),
            patch: RouteSettingsPatch { model: None, source_language: None, target_language: Some("ja".into()) },
        },
        &credentials(),
    );
    let (config, then) = saved_config(&effects);
    assert_eq!(then, AfterSave::Reconfigure);
    let effects = controller.config_saved(config, Ok(()), then);
    assert!(effects.iter().any(|effect| matches!(effect, Effect::StartProvider { .. })));
    assert!(!effects.iter().any(|effect| matches!(effect, Effect::StartCapture { .. })));
    assert_eq!(controller.system.as_ref().unwrap().config.target_language, "ja");
}

#[test]
fn saving_unchanged_settings_leaves_a_running_route_alone() {
    let mut controller = Controller::new(ready_config());
    let effects = start(&mut controller);
    let provider = provider_token(&effects);
    controller.provider_started(RouteSlot::System, provider, false, Ok(5));
    let effects = controller.config_saved(controller.config.duplicate(), Ok(()), AfterSave::Reconfigure);
    assert!(!effects.iter().any(|effect| matches!(effect, Effect::StartProvider { .. } | Effect::StartCapture { .. })));
    assert_eq!(controller.system.as_ref().unwrap().provider.map(|session| session.handle), Some(5));
}
