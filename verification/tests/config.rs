use overlingo::config::{resolve_locale, AppConfig, ApplicationReference, QwenConfig};
use overlingo::translators::route_config_error;

#[test]
fn resolves_the_system_locale_to_a_supported_one() {
    assert_ne!(resolve_locale("auto"), "auto");
    assert_eq!(resolve_locale("ja"), "ja");
}

#[test]
fn normalizes_route_inputs_and_the_overlay_switches() {
    let mut config = AppConfig::default();
    config.routes.system.input = "microphone".into();
    config.overlay.show_original = false;
    config.overlay.show_translation = false;
    config.overlay.layout = "stacked".into();
    config.audio.microphone.device = Some("  ".into());
    config.normalize();

    assert_eq!(config.routes.system.input, "system");
    assert!(!config.overlay.show_original);
    assert!(config.overlay.show_translation);
    assert_eq!(config.overlay.layout, "split");
    assert_eq!(config.audio.microphone.device, None);
}

#[test]
fn rejects_application_scope_without_an_identifier() {
    let mut config = AppConfig::default();
    config.audio.system.scope = "application".into();
    config.audio.system.application = Some(ApplicationReference {
        bundle_id: " ".into(),
        name: "Browser".into(),
    });
    config.normalize();
    assert_eq!(config.audio.system.scope, "all");
    assert!(config.audio.system.application.is_none());
}

#[test]
fn an_unserved_region_falls_back() {
    let mut config = AppConfig {
        qwen: QwenConfig {
            region: "frankfurt".into(),
            ..QwenConfig::default()
        },
        ..AppConfig::default()
    };
    config.normalize();
    assert_eq!(config.qwen.region, "beijing");
}

#[test]
fn a_fresh_install_translates_into_the_interface_language() {
    for locale in ["es", "ja"] {
        let config = AppConfig {
            locale: locale.into(),
            ..AppConfig::default()
        }
        .normalized();
        assert_eq!(config.routes.system.source_language, "en");
        assert_eq!(config.routes.system.target_language, locale);
        assert_eq!(config.routes.microphone.source_language, locale);
        assert_eq!(config.routes.microphone.target_language, "en");
    }
}

#[test]
fn an_english_interface_gets_a_usable_pair() {
    let config = AppConfig {
        locale: "en".into(),
        ..AppConfig::default()
    }
    .normalized();
    assert_eq!(config.routes.system.source_language, "zh");
    assert_eq!(config.routes.system.target_language, "en");
    assert_eq!(config.routes.microphone.source_language, "en");
    assert_eq!(config.routes.microphone.target_language, "zh");

    for route in [&config.routes.system, &config.routes.microphone] {
        for model in [
            "qwen3.5-livetranslate-flash-realtime",
            "stt-rt-v5",
            "gpt-realtime-translate",
        ] {
            assert_eq!(
                route_config_error(model, &route.source_language, &route.target_language),
                None,
                "{model}"
            );
        }
    }
}

#[test]
fn a_route_keeps_its_translator_only_while_the_model_is_known() {
    let config = AppConfig::default().normalized();
    assert_eq!(config.routes.system.model, "");
    assert_eq!(config.routes.system.engine, "");

    let mut retired = AppConfig::default();
    retired.routes.system.engine = "qwen".into();
    retired.routes.system.model = "qwen3-livetranslate-flash-realtime".into();
    let retired = retired.normalized();
    assert_eq!(retired.routes.system.model, "qwen3.5-livetranslate-flash-realtime");
    assert_eq!(retired.routes.system.engine, "qwen");

    let mut unknown = AppConfig::default();
    unknown.routes.system.engine = "gemini".into();
    unknown.routes.system.model = "gemini-live".into();
    let unknown = unknown.normalized();
    assert_eq!(unknown.routes.system.model, "");
    assert_eq!(unknown.routes.system.engine, "");
}

#[test]
fn clearing_a_key_unsets_the_routes_on_that_translator() {
    let mut config = AppConfig::default();
    config.routes.system.model = "qwen3.5-livetranslate-flash-realtime".into();
    config.routes.microphone.model = "gpt-realtime-translate".into();
    let mut config = config.normalized();

    assert!(config.drop_engine("qwen"));
    assert_eq!(config.routes.system.model, "");
    assert_eq!(config.routes.system.engine, "");
    assert_eq!(config.routes.microphone.model, "gpt-realtime-translate");
    assert!(!config.drop_engine("qwen"));
}

#[test]
fn a_chosen_pair_survives_normalization() {
    let mut config = AppConfig {
        locale: "ja".into(),
        ..AppConfig::default()
    };
    config.routes.system.source_language = "ko".into();
    config.routes.system.target_language = "vi".into();
    config.normalize();
    assert_eq!(config.routes.system.source_language, "ko");
    assert_eq!(config.routes.system.target_language, "vi");
}

#[test]
fn accepts_new_locales_and_clear_background() {
    let mut config = AppConfig {
        locale: "es".into(),
        ..AppConfig::default()
    };
    config.normalize();
    assert_eq!(config.locale, "es");
}

#[test]
fn normalizing_twice_changes_nothing_more() {
    let mut config = AppConfig {
        locale: "ko".into(),
        ..AppConfig::default()
    };
    config.qwen.workspace_id = "  ws-1  ".into();
    let once = config.normalized();
    let twice = once.duplicate().normalized();
    assert_eq!(once.qwen.workspace_id, "ws-1");
    assert_eq!(twice.qwen.workspace_id, once.qwen.workspace_id);
    assert_eq!(twice.routes.system.source_language, once.routes.system.source_language);
    assert_eq!(twice.routes.microphone.target_language, once.routes.microphone.target_language);
    assert_eq!(twice.locale, once.locale);
}

#[test]
fn an_unknown_locale_becomes_automatic() {
    let config = AppConfig {
        locale: "xx".into(),
        ..AppConfig::default()
    }
    .normalized();
    assert_eq!(config.locale, "auto");
}
