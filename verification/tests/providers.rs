use overlingo::config::AppConfig;
use overlingo::credentials::CredentialStore;
use overlingo::providers::{
    coded_error, handshake_error, session_request, Connection, ProviderState, SessionRequest,
};
use std::cell::RefCell;
use std::rc::Rc;

#[test]
fn a_refused_handshake_shows_the_reason_the_server_sent() {
    for (body, shown) in [
        (
            r#"{"code":"InvalidApiKey","message":"Invalid API-key provided.","request_id":"x"}"#,
            "InvalidApiKey: Invalid API-key provided.",
        ),
        (
            r#"{"error":{"code":"invalid_api_key","message":"Incorrect API key provided"}}"#,
            "invalid_api_key: Incorrect API key provided",
        ),
        ("Unauthorized", "Unauthorized"),
    ] {
        assert_eq!(coded_error(body).unwrap_or(body.into()), shown);
    }
}

#[test]
fn a_handshake_error_leads_with_the_status() {
    assert_eq!(
        handshake_error("401 Unauthorized", Some(r#" {"error":{"code":"bad_key"}} "#)),
        "401 Unauthorized bad_key"
    );
    assert_eq!(handshake_error("403 Forbidden", Some("  ")), "HTTP error: 403 Forbidden");
    assert_eq!(handshake_error("500", None), "HTTP error: 500");
    assert_eq!(handshake_error("502", Some("down")), "502 down");
}

struct Probe {
    log: Rc<RefCell<Vec<String>>>,
    name: &'static str,
}

impl Connection for Probe {
    fn send_audio(&self, pcm: Vec<u8>) -> Result<(), String> {
        self.log.borrow_mut().push(format!("{} got {}", self.name, pcm.len()));
        Ok(())
    }

    fn stop(&self) {
        self.log.borrow_mut().push(format!("{} stopped", self.name));
    }
}

#[test]
fn audio_reaches_only_an_open_connection() {
    let log = Rc::new(RefCell::new(Vec::new()));
    let mut state = ProviderState::new();
    let a = state.start(Probe { log: log.clone(), name: "a" });
    let b = state.start(Probe { log: log.clone(), name: "b" });
    assert_eq!((a, b), (1, 2));
    assert!(state.send_audio(b, vec![0; 4]).is_ok());
    state.stop(b);
    assert_eq!(state.send_audio(b, vec![0; 4]), Err("Session 2 not found".to_string()));
    assert!(state.send_audio(a, vec![0; 2]).is_ok());
    assert!(state.remove(a).is_some());
    assert!(state.remove(a).is_none());
    let c = state.start(Probe { log: log.clone(), name: "c" });
    assert_eq!(c, 3);
    assert_eq!(*log.borrow(), vec!["b got 4", "b stopped", "a got 2"]);
}

#[test]
fn a_route_asks_its_engine_for_a_session() {
    let mut config = AppConfig::default();
    config.qwen.workspace_id = "ws".into();
    config.routes.system.engine = "qwen".into();
    config.routes.system.model = "qwen3.5-livetranslate-flash-realtime".into();
    config.routes.system.target_language = "ja".into();
    let mut credentials = CredentialStore::default();
    credentials.set_for_test("qwen", "sk");
    match session_request(&config, &config.routes.system, "system", &credentials) {
        Ok(SessionRequest::Qwen(q)) => {
            assert_eq!(q.api_key, "sk");
            assert_eq!(q.workspace_id, "ws");
            assert_eq!(q.target_language, "ja");
            assert_eq!(q.route_id, "system");
        }
        _ => panic!("expected a Qwen session"),
    }
    config.routes.microphone.engine = "gemini".into();
    assert!(matches!(
        session_request(&config, &config.routes.microphone, "microphone", &credentials),
        Err(message) if message == "Unsupported translator: gemini"
    ));
}

struct Refuser;

impl Connection for Refuser {
    fn send_audio(&self, pcm: Vec<u8>) -> Result<(), String> {
        Err(format!("closed after {} bytes", pcm.len()))
    }

    fn stop(&self) {}
}

#[test]
fn a_connection_answer_is_handed_back_unchanged() {
    let mut state = ProviderState::new();
    let id = state.start(Refuser);
    assert_eq!(state.send_audio(id, vec![0; 6]), Err("closed after 6 bytes".to_string()));
    state.stop(id);
    assert_eq!(state.send_audio(id, vec![0; 6]), Err("Session 1 not found".to_string()));
}
