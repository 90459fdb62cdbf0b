//! The stored application settings and the normalization every load and save runs.
//! The overlay's opacity, font scale and frame are floating-point settings and are kept by
//! the shell; everything the translation logic reads is here.

use crate::text::{
    blank, is_blank, lemma_trim_idempotent, starts_with_seq, starts_with_str, str_eq, to_lowercase, to_owned, trim, trim_str, is_white_space,
};
use crate::translators::{
    default_model, engine_of, qwen_region, spec_default_model, spec_engine_of,
    spec_qwen_region,
};
use vstd::prelude::*;

verus! {

pub const SCHEMA_VERSION: u32 = 1;

pub struct AppConfig {
    pub schema_version: u32,
    pub locale: String,
    pub audio: AudioConfig,
    pub routes: RoutePair,
    pub overlay: OverlayConfig,
    pub qwen: QwenConfig,
}

pub struct AudioConfig {
    pub system: SystemAudioConfig,
    pub microphone: MicrophoneConfig,
}

pub struct MicrophoneConfig {
    /// Capture device name; `None` follows the system default.
    pub device: Option<String>,
}

pub struct SystemAudioConfig {
    pub scope: String,
    pub application: Option<ApplicationReference>,
}

pub struct ApplicationReference {
    pub bundle_id: String,
    pub name: String,
}

pub struct RoutePair {
    pub system: RouteConfig,
    pub microphone: RouteConfig,
}

pub struct RouteConfig {
    pub enabled: bool,
    pub input: String,
    pub engine: String,
    pub model: String,
    pub source_language: String,
    pub target_language: String,
}

/// The overlay's switches and layout.
pub struct OverlayConfig {
    pub enabled: bool,
    pub always_on_top: bool,
    pub click_through: bool,
    pub show_original: bool,
    pub show_translation: bool,
    /// "split" or "merged"; see `is_overlay_layout`.
    pub layout: String,
}

pub struct QwenConfig {
    pub region: String,
    pub workspace_id: String,
}

pub struct ApplicationView {
    pub bundle_id: Seq<char>,
    pub name: Seq<char>,
}

pub struct SystemAudioView {
    pub scope: Seq<char>,
    pub application: Option<ApplicationView>,
}

pub struct RouteView {
    pub enabled: bool,
    pub input: Seq<char>,
    pub engine: Seq<char>,
    pub model: Seq<char>,
    pub source_language: Seq<char>,
    pub target_language: Seq<char>,
}

pub struct OverlayView {
    pub enabled: bool,
    pub always_on_top: bool,
    pub click_through: bool,
    pub show_original: bool,
    pub show_translation: bool,
    pub layout: Seq<char>,
}

pub struct ConfigView {
    pub schema_version: u32,
    pub locale: Seq<char>,
    pub system_audio: SystemAudioView,
    pub microphone_device: Option<Seq<char>>,
    pub system_route: RouteView,
    pub microphone_route: RouteView,
    pub overlay: OverlayView,
    pub qwen_region: Seq<char>,
    pub qwen_workspace_id: Seq<char>,
}

pub open spec fn opt_view(o: Option<String>) -> Option<Seq<char>> {
    match o {
        Some(s) => Some(s@),
        None => None,
    }
}

impl View for ApplicationReference {
    type V = ApplicationView;

    open spec fn view(&self) -> ApplicationView {
        ApplicationView { bundle_id: self.bundle_id@, name: self.name@ }
    }
}

impl View for SystemAudioConfig {
    type V = SystemAudioView;

    open spec fn view(&self) -> SystemAudioView {
        SystemAudioView {
            scope: self.scope@,
            application: match self.application {
                Some(a) => Some(a@),
                None => None,
            },
        }
    }
}

impl View for RouteConfig {
    type V = RouteView;

    open spec fn view(&self) -> RouteView {
        RouteView {
            enabled: self.enabled,
            input: self.input@,
            engine: self.engine@,
            model: self.model@,
            source_language: self.source_language@,
            target_language: self.target_language@,
        }
    }
}

impl View for OverlayConfig {
    type V = OverlayView;

    open spec fn view(&self) -> OverlayView {
        OverlayView {
            enabled: self.enabled,
            always_on_top: self.always_on_top,
            click_through: self.click_through,
            show_original: self.show_original,
            show_translation: self.show_translation,
            layout: self.layout@,
        }
    }
}

impl View for AppConfig {
    type V = ConfigView;

    open spec fn view(&self) -> ConfigView {
        ConfigView {
            schema_version: self.schema_version,
            locale: self.locale@,
            system_audio: self.audio.system@,
            microphone_device: opt_view(self.audio.microphone.device),
            system_route: self.routes.system@,
            microphone_route: self.routes.microphone@,
            overlay: self.overlay@,
            qwen_region: self.qwen.region@,
            qwen_workspace_id: self.qwen.workspace_id@,
        }
    }
}

fn copy_opt(o: &Option<String>) -> (r: Option<String>)
    ensures
        opt_view(r) == opt_view(*o),
{
    match o {
        Some(s) => Some(s.clone()),
        None => None,
    }
}

impl ApplicationReference {
    pub fn duplicate(&self) -> (r: Self)
        ensures
            r@ == self@,
    {
        ApplicationReference { bundle_id: self.bundle_id.clone(), name: self.name.clone() }
    }
}

impl RouteConfig {
    pub fn duplicate(&self) -> (r: Self)
        ensures
            r@ == self@,
    {
        RouteConfig {
            enabled: self.enabled,
            input: self.input.clone(),
            engine: self.engine.clone(),
            model: self.model.clone(),
            source_language: self.source_language.clone(),
            target_language: self.target_language.clone(),
        }
    }
}

impl AppConfig {
    pub fn duplicate(&self) -> (r: Self)
        ensures
            r@ == self@,
    {
        AppConfig {
            schema_version: self.schema_version,
            locale: self.locale.clone(),
            audio: AudioConfig {
                system: SystemAudioConfig {
                    scope: self.audio.system.scope.clone(),
                    application: match &self.audio.system.application {
                        Some(a) => Some(a.duplicate()),
                        None => None,
                    },
                },
                microphone: MicrophoneConfig { device: copy_opt(&self.audio.microphone.device) },
            },
            routes: RoutePair {
                system: self.routes.system.duplicate(),
                microphone: self.routes.microphone.duplicate(),
            },
            overlay: OverlayConfig {
                enabled: self.overlay.enabled,
                always_on_top: self.overlay.always_on_top,
                click_through: self.overlay.click_through,
                show_original: self.overlay.show_original,
                show_translation: self.overlay.show_translation,
                layout: self.overlay.layout.clone(),
            },
            qwen: QwenConfig {
                region: self.qwen.region.clone(),
                workspace_id: self.qwen.workspace_id.clone(),
            },
        }
    }
}

/// A route with no translator chosen yet: a preselected model would look chosen while its
/// provider has no key.
pub open spec fn default_route_view(input: Seq<char>) -> RouteView {
    RouteView {
        enabled: true,
        input,
        engine: Seq::empty(),
        model: Seq::empty(),
        source_language: Seq::empty(),
        target_language: Seq::empty(),
    }
}

pub open spec fn default_config_view() -> ConfigView {
    ConfigView {
        schema_version: 1,
        locale: "auto"@,
        system_audio: SystemAudioView { scope: "all"@, application: None },
        microphone_device: None,
        system_route: default_route_view("system"@),
        microphone_route: default_route_view("microphone"@),
        overlay: OverlayView {
            enabled: true,
            always_on_top: true,
            click_through: true,
            show_original: true,
            show_translation: true,
            layout: "split"@,
        },
        qwen_region: "beijing"@,
        qwen_workspace_id: Seq::empty(),
    }
}

impl RouteConfig {
    /// A route for `input` with no translator and no languages chosen.
    pub fn for_input(input: &str) -> (r: Self)
        ensures
            r@ == default_route_view(input@),
    {
        RouteConfig {
            enabled: true,
            input: to_owned(input),
            engine: String::new(),
            model: String::new(),
            source_language: String::new(),
            target_language: String::new(),
        }
    }
}

impl Default for RouteConfig {
    fn default() -> (r: Self)
        ensures
            r@ == default_route_view("system"@),
    {
        RouteConfig::for_input("system")
    }
}

impl Default for SystemAudioConfig {
    fn default() -> (r: Self)
        ensures
            r@ == (SystemAudioView { scope: "all"@, application: None }),
    {
        SystemAudioConfig { scope: to_owned("all"), application: None }
    }
}

impl Default for QwenConfig {
    fn default() -> (r: Self)
        ensures
            r.region@ == "beijing"@,
            r.workspace_id@ == Seq::<char>::empty(),
    {
        QwenConfig { region: to_owned("beijing"), workspace_id: String::new() }
    }
}

impl Default for OverlayConfig {
    fn default() -> (r: Self)
        ensures
            r@ == default_config_view().overlay,
    {
        OverlayConfig {
            enabled: true,
            always_on_top: true,
            click_through: true,
            show_original: true,
            show_translation: true,
            layout: to_owned("split"),
        }
    }
}

impl Default for AppConfig {
    fn default() -> (r: Self)
        ensures
            r@ == default_config_view(),
    {
        AppConfig {
            schema_version: SCHEMA_VERSION,
            locale: to_owned("auto"),
            audio: AudioConfig {
                system: SystemAudioConfig::default(),
                microphone: MicrophoneConfig { device: None },
            },
            routes: RoutePair {
                system: RouteConfig::for_input("system"),
                microphone: RouteConfig::for_input("microphone"),
            },
            overlay: OverlayConfig::default(),
            qwen: QwenConfig::default(),
        }
    }
}

pub open spec fn spec_is_overlay_layout(layout: Seq<char>) -> bool {
    layout == "split"@ || layout == "merged"@
}

pub fn is_overlay_layout(layout: &str) -> (r: bool)
    ensures
        r == spec_is_overlay_layout(layout@),
{
    str_eq(layout, "split") || str_eq(layout, "merged")
}

/// The interface locales the app ships, plus "auto" for the system's own.
pub open spec fn spec_is_supported_locale(locale: Seq<char>) -> bool {
    locale == "auto"@ || locale == "en"@ || locale == "es"@ || locale == "ja"@ || locale
        == "ko"@ || locale == "vi"@ || locale == "zh-Hans"@
}

pub fn is_supported_locale(locale: &str) -> (r: bool)
    ensures
        r == spec_is_supported_locale(locale@),
{
    str_eq(locale, "auto") || str_eq(locale, "en") || str_eq(locale, "es") || str_eq(locale, "ja")
        || str_eq(locale, "ko") || str_eq(locale, "vi") || str_eq(locale, "zh-Hans")
}

/// The language code behind an interface locale. Everything but Simplified Chinese already
/// names a language.
pub open spec fn spec_interface_language(locale: Seq<char>) -> Seq<char> {
    if locale == "zh-Hans"@ {
        "zh"@
    } else if locale == "es"@ {
        "es"@
    } else if locale == "ja"@ {
        "ja"@
    } else if locale == "ko"@ {
        "ko"@
    } else if locale == "vi"@ {
        "vi"@
    } else {
        "en"@
    }
}

/// The languages an interface can be read in.
pub open spec fn is_interface_language(l: Seq<char>) -> bool {
    l == "zh"@ || l == "es"@ || l == "ja"@ || l == "ko"@ || l == "vi"@ || l == "en"@
}

pub fn interface_language(locale: &str) -> (r: &'static str)
    ensures
        r@ == spec_interface_language(locale@),
{
    if str_eq(locale, "zh-Hans") {
        "zh"
    } else if str_eq(locale, "es") {
        "es"
    } else if str_eq(locale, "ja") {
        "ja"
    } else if str_eq(locale, "ko") {
        "ko"
    } else if str_eq(locale, "vi") {
        "vi"
    } else {
        "en"
    }
}

/// The foreign side of a fresh route. "The other language is English" holds for everyone
/// but English readers, who need a second guess; Chinese is the widest one every translator
/// here handles.
pub open spec fn spec_counterpart_language(interface: Seq<char>) -> Seq<char> {
    if interface == "en"@ {
        "zh"@
    } else {
        "en"@
    }
}

pub fn counterpart_language(interface: &str) -> (r: &'static str)
    ensures
        r@ == spec_counterpart_language(interface@),
{
    if str_eq(interface, "en") {
        "zh"
    } else {
        "en"
    }
}

pub open spec fn needs_source(language: Seq<char>) -> bool {
    is_blank(language) || language == "auto"@
}

/// What normalization makes of one route. A retired model falls back to its provider's
/// current one; one nobody recognises leaves the route without a translator. The engine is
/// derived from the model so the two never disagree. Subtitles are read in the interface
/// language, and the microphone route is the same exchange the other way round.
pub open spec fn normalized_route(r: RouteView, input: Seq<char>, interface: Seq<char>) -> RouteView {
    let model = if spec_engine_of(r.model) is None {
        spec_default_model(r.engine)
    } else {
        r.model
    };
    let engine = match spec_engine_of(model) {
        Some(e) => e,
        None => Seq::empty(),
    };
    let counterpart = spec_counterpart_language(interface);
    let microphone = input == "microphone"@;
    RouteView {
        enabled: r.enabled,
        input,
        engine,
        model,
        source_language: if needs_source(r.source_language) {
            if microphone {
                interface
            } else {
                counterpart
            }
        } else {
            r.source_language
        },
        target_language: if is_blank(r.target_language) {
            if microphone {
                counterpart
            } else {
                interface
            }
        } else {
            r.target_language
        },
    }
}

pub fn normalize_route(route: &mut RouteConfig, input: &str, interface: &str)
    ensures
        final(route)@ == normalized_route(old(route)@, input@, interface@),
{
    route.input = to_owned(input);
    if engine_of(route.model.as_str()).is_none() {
        route.model = to_owned(default_model(route.engine.as_str()));
    }
    route.engine = match engine_of(route.model.as_str()) {
        Some(engine) => to_owned(engine),
        None => String::new(),
    };
    let counterpart = counterpart_language(interface);
    let microphone = str_eq(input, "microphone");
    if blank(route.source_language.as_str()) || str_eq(route.source_language.as_str(), "auto") {
        route.source_language = to_owned(
            if microphone {
                interface
            } else {
                counterpart
            },
        );
    }
    if blank(route.target_language.as_str()) {
        route.target_language = to_owned(
            if microphone {
                counterpart
            } else {
                interface
            },
        );
    }
}

/// An application scope needs an identifier; anything else captures all system audio.
pub open spec fn normalized_system_audio(s: SystemAudioView) -> SystemAudioView {
    let application = match s.application {
        Some(a) => Some(ApplicationView { bundle_id: trim(a.bundle_id), name: trim(a.name) }),
        None => None,
    };
    let valid = match application {
        Some(a) => a.bundle_id.len() > 0,
        None => false,
    };
    if s.scope != "application"@ || !valid {
        SystemAudioView { scope: "all"@, application: None }
    } else {
        SystemAudioView { scope: s.scope, application }
    }
}

pub fn normalize_system_audio(system: &mut SystemAudioConfig)
    ensures
        final(system)@ == normalized_system_audio(old(system)@),
{
    let valid_application = match &mut system.application {
        Some(application) => {
            application.bundle_id = trim_str(application.bundle_id.as_str());
            application.name = trim_str(application.name.as_str());
            !application.bundle_id.as_str().is_empty()
        },
        None => false,
    };
    if !str_eq(system.scope.as_str(), "application") || !valid_application {
        system.scope = to_owned("all");
        system.application = None;
    }
}

/// Something has to be shown, so hiding both sides brings the translation back.
pub open spec fn normalized_overlay(o: OverlayView) -> OverlayView {
    OverlayView {
        show_translation: if !o.show_original && !o.show_translation {
            true
        } else {
            o.show_translation
        },
        layout: if spec_is_overlay_layout(o.layout) {
            o.layout
        } else {
            "split"@
        },
        ..o
    }
}

pub fn normalize_overlay(overlay: &mut OverlayConfig)
    ensures
        final(overlay)@ == normalized_overlay(old(overlay)@),
{
    if !overlay.show_original && !overlay.show_translation {
        overlay.show_translation = true;
    }
    if !is_overlay_layout(overlay.layout.as_str()) {
        overlay.layout = to_owned("split");
    }
}

pub open spec fn normalized_device(device: Option<Seq<char>>) -> Option<Seq<char>> {
    match device {
        Some(d) => if trim(d).len() > 0 {
            Some(trim(d))
        } else {
            None
        },
        None => None,
    }
}

pub open spec fn normalized_locale(locale: Seq<char>) -> Seq<char> {
    if spec_is_supported_locale(locale) {
        locale
    } else {
        "auto"@
    }
}

/// The whole normalization, for a given interface language.
pub open spec fn normalized(c: ConfigView, interface: Seq<char>) -> ConfigView {
    ConfigView {
        schema_version: 1,
        locale: normalized_locale(c.locale),
        system_audio: normalized_system_audio(c.system_audio),
        microphone_device: normalized_device(c.microphone_device),
        system_route: normalized_route(c.system_route, "system"@, interface),
        microphone_route: normalized_route(c.microphone_route, "microphone"@, interface),
        overlay: normalized_overlay(c.overlay),
        qwen_region: if spec_qwen_region(c.qwen_region) is None {
            "beijing"@
        } else {
            c.qwen_region
        },
        qwen_workspace_id: trim(c.qwen_workspace_id),
    }
}

/// Where a locale other than "auto" leaves the interface; "auto" goes by the system.
pub open spec fn interface_for(locale: Seq<char>, interface: Seq<char>) -> bool {
    is_interface_language(interface) && (locale != "auto"@ ==> interface
        == spec_interface_language(locale))
}

impl AppConfig {
    /// Normalizes with the interface language already settled.
    pub fn normalize_for(&mut self, interface: &str)
        ensures
            final(self)@ == normalized(old(self)@, interface@),
    {
        self.schema_version = SCHEMA_VERSION;
        if !is_supported_locale(self.locale.as_str()) {
            self.locale = to_owned("auto");
        }
        normalize_route(&mut self.routes.system, "system", interface);
        normalize_route(&mut self.routes.microphone, "microphone", interface);
        normalize_system_audio(&mut self.audio.system);
        let device = match &self.audio.microphone.device {
            Some(device) => {
                let device = trim_str(device.as_str());
                if !device.as_str().is_empty() {
                    Some(device)
                } else {
                    None
                }
            },
            None => None,
        };
        self.audio.microphone.device = device;
        self.qwen.workspace_id = trim_str(self.qwen.workspace_id.as_str());
        normalize_overlay(&mut self.overlay);
        if qwen_region(self.qwen.region.as_str()).is_none() {
            self.qwen.region = to_owned("beijing");
        }
    }

    /// Routes on `engine` lose their translator; says whether any did.
    pub fn drop_engine(&mut self, engine: &str) -> (dropped: bool)
        ensures
            dropped == (old(self).routes.system.engine@ == engine@
                || old(self).routes.microphone.engine@ == engine@),
            final(self)@.system_route == dropped_route(old(self)@.system_route, engine@),
            final(self)@.microphone_route == dropped_route(old(self)@.microphone_route, engine@),
            final(self)@ == (ConfigView {
                system_route: final(self)@.system_route,
                microphone_route: final(self)@.microphone_route,
                ..old(self)@
            }),
    {
        let mut dropped = false;
        if str_eq(self.routes.system.engine.as_str(), engine) {
            self.routes.system.model = String::new();
            self.routes.system.engine = String::new();
            dropped = true;
        }
        if str_eq(self.routes.microphone.engine.as_str(), engine) {
            self.routes.microphone.model = String::new();
            self.routes.microphone.engine = String::new();
            dropped = true;
        }
        dropped
    }
}

/// A route on `engine` without its translator; any other route as it was.
pub open spec fn dropped_route(r: RouteView, engine: Seq<char>) -> RouteView {
    if r.engine == engine {
        RouteView { engine: Seq::empty(), model: Seq::empty(), ..r }
    } else {
        r
    }
}

/// The system's preferred locale (`sys_locale::get_locale`), read from the environment, so
/// nothing is promised of it.
#[verifier::external_body]
fn system_locale() -> Option<String> {
    sys_locale::get_locale()
}

/// The interface locale a lowercased system locale maps to.
pub open spec fn spec_locale_for_system(system: Seq<char>) -> Seq<char> {
    if starts_with_seq(system, "zh"@) {
        "zh-Hans"@
    } else if starts_with_seq(system, "es"@) {
        "es"@
    } else if starts_with_seq(system, "ja"@) {
        "ja"@
    } else if starts_with_seq(system, "ko"@) {
        "ko"@
    } else if starts_with_seq(system, "vi"@) {
        "vi"@
    } else {
        "en"@
    }
}

/// The concrete locales the interface ships.
pub open spec fn is_concrete_locale(l: Seq<char>) -> bool {
    l == "en"@ || l == "es"@ || l == "ja"@ || l == "ko"@ || l == "vi"@ || l == "zh-Hans"@
}

pub fn locale_for_system(system: &str) -> (r: &'static str)
    ensures
        r@ == spec_locale_for_system(system@),
        is_concrete_locale(r@),
{
    if starts_with_str(system, "zh") {
        "zh-Hans"
    } else if starts_with_str(system, "es") {
        "es"
    } else if starts_with_str(system, "ja") {
        "ja"
    } else if starts_with_str(system, "ko") {
        "ko"
    } else if starts_with_str(system, "vi") {
        "vi"
    } else {
        "en"
    }
}

/// The locale the interface is shown in: the configured one, or for "auto" the one the
/// system's preferred locale maps to.
pub fn resolve_locale(configured: &str) -> (r: String)
    ensures
        configured@ != "auto"@ ==> r@ == configured@,
        configured@ == "auto"@ ==> is_concrete_locale(r@),
{
    if !str_eq(configured, "auto") {
        return to_owned(configured);
    }
    let system = match system_locale() {
        Some(locale) => locale,
        None => String::new(),
    };
    let lowered = to_lowercase(system.as_str());
    to_owned(locale_for_system(lowered.as_str()))
}

impl AppConfig {
    pub fn normalize(&mut self)
        ensures
            exists|interface: Seq<char>|
                interface_for(normalized_locale(old(self)@.locale), interface) && final(self)@
                    == #[trigger] normalized(old(self)@, interface),
    {
        let locale = if is_supported_locale(self.locale.as_str()) {
            self.locale.clone()
        } else {
            to_owned("auto")
        };
        let resolved = resolve_locale(locale.as_str());
        let interface = interface_language(resolved.as_str());
        proof {
            reveal_strlit("auto");
            reveal_strlit("zh-Hans");
        }
        self.normalize_for(interface);
    }

    pub fn normalized(self) -> (r: Self)
        ensures
            exists|interface: Seq<char>|
                interface_for(normalized_locale(self@.locale), interface) && r@
                    == #[trigger] normalized(self@, interface),
    {
        let mut config = self;
        config.normalize();
        config
    }
}

/// Normalizing a route a second time changes nothing.
pub proof fn law_route_normalization_idempotent(r: RouteView, input: Seq<char>, interface: Seq<char>)
    ensures
        normalized_route(normalized_route(r, input, interface), input, interface)
            == normalized_route(r, input, interface),
{
    reveal_strlit("qwen3.5-livetranslate-flash-realtime");
    reveal_strlit("stt-rt-v5");
    reveal_strlit("gpt-realtime-translate");
    reveal_strlit("qwen");
    reveal_strlit("soniox");
    reveal_strlit("openai");
    reveal_strlit("");
    let n = normalized_route(r, input, interface);
    assert("qwen3.5-livetranslate-flash-realtime"@.len() == 36);
    assert("stt-rt-v5"@.len() == 9);
    assert("gpt-realtime-translate"@.len() == 22);
    assert(spec_engine_of(Seq::<char>::empty()) is None);
    if spec_engine_of(r.model) is None {
        if r.engine == "qwen"@ {
            assert(spec_engine_of(qwen_model_view()) == Some("qwen"@));
        } else if r.engine == "soniox"@ {
            assert(spec_engine_of(soniox_model_view()) == Some("soniox"@));
        } else if r.engine == "openai"@ {
            assert(spec_engine_of(openai_model_view()) == Some("openai"@));
        } else {
            assert(n.model == Seq::<char>::empty());
        }
    }
    let m = normalized_route(n, input, interface);
    assert(m.model == n.model);
    assert(m.engine == n.engine);
    assert(m.source_language == n.source_language);
    assert(m.target_language == n.target_language);
    assert(m == n);
}

spec fn qwen_model_view() -> Seq<char> {
    crate::translators::qwen_model()
}

spec fn soniox_model_view() -> Seq<char> {
    crate::translators::soniox_model()
}

spec fn openai_model_view() -> Seq<char> {
    crate::translators::openai_model()
}

/// Normalization runs on every load and every save, so it must settle: applying it to
/// its own result changes nothing.
pub proof fn law_normalization_idempotent(c: ConfigView, interface: Seq<char>)
    ensures
        normalized(normalized(c, interface), interface) == normalized(c, interface),
{
    let n = normalized(c, interface);
    law_route_normalization_idempotent(c.system_route, "system"@, interface);
    law_route_normalization_idempotent(c.microphone_route, "microphone"@, interface);
    lemma_trim_idempotent(c.qwen_workspace_id);
    reveal_strlit("auto");
    reveal_strlit("beijing");
    reveal_strlit("cn-beijing");
    reveal_strlit("split");
    reveal_strlit("all");
    reveal_strlit("application");
    match c.microphone_device {
        Some(d) => {
            lemma_trim_idempotent(d);
        },
        None => {},
    }
    match c.system_audio.application {
        Some(a) => {
            lemma_trim_idempotent(a.bundle_id);
            lemma_trim_idempotent(a.name);
        },
        None => {},
    }
    assert(normalized_system_audio(n.system_audio) == n.system_audio);
    assert(normalized_overlay(n.overlay) == n.overlay);
    assert(normalized_device(n.microphone_device) == n.microphone_device);
}

/// Normalization runs on every save, so it never rewrites a language pair the user chose.
pub proof fn law_chosen_pair_survives(r: RouteView, input: Seq<char>, interface: Seq<char>)
    requires
        !is_blank(r.source_language),
        r.source_language != "auto"@,
        !is_blank(r.target_language),
    ensures
        normalized_route(r, input, interface).source_language == r.source_language,
        normalized_route(r, input, interface).target_language == r.target_language,
{
}

/// A fresh route reads subtitles in the interface language: the system route translates
/// the counterpart into it, and the microphone route the other way round.
pub proof fn law_fresh_routes_face_the_interface(interface: Seq<char>)
    requires
        is_interface_language(interface),
    ensures
        normalized_route(default_route_view("system"@), "system"@, interface).target_language
            == interface,
        normalized_route(default_route_view("system"@), "system"@, interface).source_language
            == spec_counterpart_language(interface),
        normalized_route(default_route_view("microphone"@), "microphone"@, interface).source_language
            == interface,
        normalized_route(default_route_view("microphone"@), "microphone"@, interface).target_language
            == spec_counterpart_language(interface),
{
    reveal_strlit("system");
    reveal_strlit("microphone");
    assert("system"@.len() != "microphone"@.len());
    assert(is_blank(Seq::<char>::empty()));
}

/// A route keeps its model only while the catalogue knows it, and its engine is always the
/// one that model belongs to.
pub proof fn law_engine_follows_model(r: RouteView, input: Seq<char>, interface: Seq<char>)
    ensures
        spec_engine_of(normalized_route(r, input, interface).model) is Some ==> Some(
            normalized_route(r, input, interface).engine,
        ) == spec_engine_of(normalized_route(r, input, interface).model),
        spec_engine_of(normalized_route(r, input, interface).model) is None ==> normalized_route(
            r,
            input,
            interface,
        ).engine.len() == 0,
{
}

/// A two-letter prefix test over the characters themselves.
proof fn lemma_begins_with_two(s: Seq<char>, prefix: Seq<char>)
    requires
        prefix.len() == 2,
    ensures
        starts_with_seq(s, prefix) <==> (s.len() >= 2 && s[0] == prefix[0] && s[1] == prefix[1]),
{
    if s.len() >= 2 && s[0] == prefix[0] && s[1] == prefix[1] {
        assert(s.subrange(0, 2) =~= prefix);
    }
    if starts_with_seq(s, prefix) {
        assert(s.subrange(0, 2)[0] == s[0]);
        assert(s.subrange(0, 2)[1] == s[1]);
    }
}

/// The interface follows the language of the system locale, whatever its region or script:
/// any locale beginning `zh` (zh-cn, zh-tw, zh-hans-cn) gets the Chinese interface, one
/// beginning `es`, `ja`, `ko` or `vi` that language's, and every other locale English.
pub proof fn law_system_locale_follows_its_language(s: Seq<char>)
    ensures
        s.len() >= 2 && s[0] == 'z' && s[1] == 'h' ==> spec_locale_for_system(s) == "zh-Hans"@,
        s.len() >= 2 && s[0] == 'e' && s[1] == 's' ==> spec_locale_for_system(s) == "es"@,
        s.len() >= 2 && s[0] == 'j' && s[1] == 'a' ==> spec_locale_for_system(s) == "ja"@,
        s.len() >= 2 && s[0] == 'k' && s[1] == 'o' ==> spec_locale_for_system(s) == "ko"@,
        s.len() >= 2 && s[0] == 'v' && s[1] == 'i' ==> spec_locale_for_system(s) == "vi"@,
        !(s.len() >= 2 && s[0] == 'z' && s[1] == 'h') && !(s.len() >= 2 && s[0] == 'e' && s[1] == 's') && !(s.len() >= 2 && s[0] == 'j' && s[1] == 'a') && !(s.len() >= 2 && s[0] == 'k' && s[1] == 'o') && !(s.len() >= 2 && s[0] == 'v' && s[1] == 'i')
            ==> spec_locale_for_system(s) == "en"@,
{
    reveal_strlit("zh");
    reveal_strlit("es");
    reveal_strlit("ja");
    reveal_strlit("ko");
    reveal_strlit("vi");
    lemma_begins_with_two(s, "zh"@);
    lemma_begins_with_two(s, "es"@);
    lemma_begins_with_two(s, "ja"@);
    lemma_begins_with_two(s, "ko"@);
    lemma_begins_with_two(s, "vi"@);
}

} // verus!
