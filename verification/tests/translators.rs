use overlingo::config::AppConfig;
use overlingo::credentials::CredentialStore;
use overlingo::translators::{
    default_model, engine_ids, engine_of, is_known_engine, qwen_region, route_config_error,
    settings_fingerprint, start_blocker, supports_language, translator_models,
};

#[test]
fn model_ids_are_unique_and_dispatchable() {
    for (id, engine) in translator_models() {
        assert!(is_known_engine(engine), "{}", id);
        assert_eq!(engine_of(id), Some(engine));
    }
}

#[test]
fn every_engine_offers_a_model() {
    for id in engine_ids() {
        assert!(!default_model(id).is_empty(), "{}", id);
    }
}

#[test]
fn fingerprint_separates_adjacent_fields() {
    let with = |region: &str, workspace: &str| {
        let mut config = AppConfig::default();
        config.qwen.region = region.into();
        config.qwen.workspace_id = workspace.into();
        settings_fingerprint("qwen", &config)
    };
    assert_ne!(with("beijing", "ws"), with("beijingws", ""));
}

#[test]
fn start_is_blocked_until_the_engine_is_usable() {
    let mut config = AppConfig::default();
    let mut credentials = CredentialStore::default();
    assert_eq!(start_blocker("qwen", &config, &credentials), Some("workspaceRequired"));

    config.qwen.workspace_id = "ws-123".into();
    assert_eq!(start_blocker("qwen", &config, &credentials), Some("missingCredential"));

    credentials.set_for_test("qwen", "sk-test");
    assert_eq!(start_blocker("qwen", &config, &credentials), None);
    assert_eq!(
        start_blocker("openai", &AppConfig::default(), &credentials),
        Some("missingCredential")
    );
}

#[test]
fn an_unknown_engine_can_never_start() {
    let credentials = CredentialStore::default();
    assert!(start_blocker("gemini", &AppConfig::default(), &credentials).is_some());
}

#[test]
fn regions_map_to_their_alibaba_cloud_ids() {
    assert_eq!(qwen_region("beijing"), Some("cn-beijing"));
    assert_eq!(qwen_region("singapore"), Some("ap-southeast-1"));
}

#[test]
fn a_route_is_invalid_until_the_whole_combination_works() {
    let soniox = "stt-rt-v5";
    let qwen = "qwen3.5-livetranslate-flash-realtime";
    let unsupported = Some("unsupportedLanguage");

    assert_eq!(route_config_error(soniox, "en", "en"), Some("invalidLanguagePair"));
    assert_eq!(route_config_error(soniox, "yue", "en"), unsupported);
    assert_eq!(route_config_error(soniox, "en", "yue"), unsupported);
    assert_eq!(route_config_error(soniox, "en", "zh"), None);
    assert_eq!(route_config_error("gpt-realtime-translate", "en", "nl"), unsupported);
    assert_eq!(route_config_error(qwen, "yue", "en"), None);
}

#[test]
fn retired_models_are_unknown() {
    let retired = "qwen3-livetranslate-flash-realtime";
    assert_eq!(engine_of(retired), None);
    assert_eq!(route_config_error(retired, "en", "zh"), Some("unsupportedLanguage"));
}

#[test]
fn narrow_models_reject_unsupported_languages() {
    assert!(supports_language("gpt-realtime-translate", "ja"));
    assert!(!supports_language("gpt-realtime-translate", "nl"));
    assert!(supports_language("qwen3.5-livetranslate-flash-realtime", "nl"));
}

#[test]
fn only_qwen_has_provider_settings() {
    let mut config = AppConfig::default();
    config.qwen.workspace_id = "ws".into();
    assert_eq!(settings_fingerprint("qwen", &config), "beijing\u{1f}ws");
    assert_eq!(settings_fingerprint("soniox", &config), "");
    assert_eq!(settings_fingerprint("openai", &config), "");
}
