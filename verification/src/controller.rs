//! The session controller's decisions. Every request from a surface and every report from a
//! translator, a capture stream or a timer is folded into the controller's state here, and
//! what has to happen outside (opening a websocket, starting a capture stream, writing a
//! file, arming a timer, showing a window) comes back as a list of effects for the shell to
//! carry out. Results that only the outside can give (a session handle, a capture start, a
//! written file) come back in as calls.

use crate::audio::CapturableApplication;
use crate::config::{
    spec_is_overlay_layout, is_overlay_layout, AppConfig, ApplicationReference, ConfigView, RouteConfig, RouteView, OverlayView,
};
use crate::credentials::CredentialStore;
use crate::realtime::Event;
use crate::state::TranslationState;
use crate::text::{str_eq, to_owned, trim, trim_str};
use crate::translators::{
    engine_of, opt_str, qwen_region, route_config_error, spec_engine_of, spec_qwen_region,
    spec_route_config_error, spec_start_blocker, start_blocker,
};
use vstd::prelude::*;

verus! {

/// How many times a failing route is rebuilt on its own before it gives up.
pub const MAX_RECONNECT_ATTEMPTS: u8 = 3;

/// How many of a route's latest turns a snapshot carries.
pub const VISIBLE_TURNS: usize = 24;

/// The two routes a session can run.
#[derive(Clone, Copy, Debug, PartialEq, Eq, Structural)]
pub enum RouteSlot {
    System,
    Microphone,
}

/// The surfaces that may subscribe to the controller's snapshots: the settings window,
/// the subtitle overlay, and the overlay's toolbar and panel.
pub open spec fn spec_is_surface(name: Seq<char>) -> bool {
    name == "main"@ || name == "overlay"@ || name == "toolbar"@ || name == "panel"@
}

pub fn is_surface(name: &str) -> (r: bool)
    ensures
        r == spec_is_surface(name@),
{
    str_eq(name, "main") || str_eq(name, "overlay") || str_eq(name, "toolbar") || str_eq(name, "panel")
}

pub open spec fn spec_slot_of(route_id: Seq<char>) -> Option<RouteSlot> {
    if route_id == "system"@ {
        Some(RouteSlot::System)
    } else if route_id == "microphone"@ {
        Some(RouteSlot::Microphone)
    } else {
        None
    }
}

pub fn slot_of(route_id: &str) -> (r: Option<RouteSlot>)
    ensures
        r == spec_slot_of(route_id@),
{
    proof {
        reveal_strlit("system");
        reveal_strlit("microphone");
    }
    if str_eq(route_id, "system") {
        Some(RouteSlot::System)
    } else if str_eq(route_id, "microphone") {
        Some(RouteSlot::Microphone)
    } else {
        None
    }
}

pub open spec fn slot_id(slot: RouteSlot) -> Seq<char> {
    match slot {
        RouteSlot::System => "system"@,
        RouteSlot::Microphone => "microphone"@,
    }
}

pub fn slot_name(slot: RouteSlot) -> (r: &'static str)
    ensures
        r@ == slot_id(slot),
        spec_slot_of(r@) == Some(slot),
{
    proof {
        reveal_strlit("system");
        reveal_strlit("microphone");
    }
    match slot {
        RouteSlot::System => {
            assert("system"@ =~= seq!['s', 'y', 's', 't', 'e', 'm']);
            "system"
        },
        RouteSlot::Microphone => {
            assert("system"@.len() != "microphone"@.len());
            "microphone"
        },
    }
}

pub open spec fn slot_config(c: ConfigView, slot: RouteSlot) -> RouteView {
    match slot {
        RouteSlot::System => c.system_route,
        RouteSlot::Microphone => c.microphone_route,
    }
}

/// The stored settings of a route, by its identifier.
pub fn route_config<'a>(config: &'a AppConfig, route_id: &str) -> (r: Option<&'a RouteConfig>)
    ensures
        match spec_slot_of(route_id@) {
            Some(slot) => r is Some && r->0@ == slot_config(config@, slot),
            None => r is None,
        },
{
    match slot_of(route_id) {
        Some(RouteSlot::System) => Some(&config.routes.system),
        Some(RouteSlot::Microphone) => Some(&config.routes.microphone),
        None => None,
    }
}

/// The routes the user has switched on, system first.
pub open spec fn spec_enabled_route_ids(c: ConfigView) -> Seq<Seq<char>> {
    (if c.system_route.enabled {
        seq!["system"@]
    } else {
        Seq::empty()
    }) + (if c.microphone_route.enabled {
        seq!["microphone"@]
    } else {
        Seq::empty()
    })
}

pub open spec fn static_views(v: Seq<&'static str>) -> Seq<Seq<char>> {
    v.map_values(|s: &'static str| s@)
}

pub fn enabled_route_ids(config: &AppConfig) -> (r: Vec<&'static str>)
    ensures
        static_views(r@) == spec_enabled_route_ids(config@),
{
    let mut out: Vec<&'static str> = Vec::new();
    if config.routes.system.enabled {
        out.push("system");
    }
    if config.routes.microphone.enabled {
        out.push("microphone");
    }
    proof {
        reveal_strlit("system");
        reveal_strlit("microphone");
        assert(static_views(out@) =~= spec_enabled_route_ids(config@));
    }
    out
}

/// What a surface may ask of the controller.
pub enum TranslationCommand {
    Start,
    Stop,
    Pause,
    Resume,
}

/// A change to a route's translator or languages; fields left out stay as they are.
pub struct RouteSettingsPatch {
    pub model: Option<String>,
    pub source_language: Option<String>,
    pub target_language: Option<String>,
}

/// A change to the Qwen settings; fields left out stay as they are.
pub struct QwenSettingsPatch {
    pub region: Option<String>,
    pub workspace_id: Option<String>,
}

/// A change to the overlay's switches and layout; fields left out stay as they are. The
/// opacity, font scale and frame are floating-point settings the shell applies itself.
pub struct OverlaySettingsPatch {
    pub always_on_top: Option<bool>,
    pub click_through: Option<bool>,
    pub show_original: Option<bool>,
    pub show_translation: Option<bool>,
    pub layout: Option<String>,
}

pub enum ControllerRequest {
    Translation { command: TranslationCommand },
    ToggleTranslation,
    ToggleOverlay,
    ShowOverlay { visible: bool },
    Hide,
    Settings { patch: OverlaySettingsPatch },
    Route { route_id: String, enabled: bool },
    RouteSettings { route_id: String, patch: RouteSettingsPatch },
    RetryRoute { route_id: String },
    QwenSettings { patch: QwenSettingsPatch },
    Locale { locale: String },
    Capture { bundle_id: String },
    MicrophoneDevice { device: String },
    RequestCaptureOptions,
    Exit,
}

/// A message for the user, with the catalog code that names it where there is one.
pub struct ControllerNotice {
    pub id: u64,
    pub code: Option<String>,
    pub message: String,
}

pub open spec fn opt_seq(o: Option<String>) -> Option<Seq<char>> {
    match o {
        Some(s) => Some(s@),
        None => None,
    }
}

/// The route settings a patch leaves, or `None` when the patch names a model no translator
/// serves: the model picks the provider, so an unknown one is rejected rather than guessed
/// at. A language the model cannot handle is stored anyway; only the combination matters,
/// and the user must be able to change translator and language in either order.
pub open spec fn patched_route(
    r: RouteView,
    model: Option<Seq<char>>,
    source: Option<Seq<char>>,
    target: Option<Seq<char>>,
) -> Option<RouteView> {
    let m = match model {
        Some(x) => x,
        None => r.model,
    };
    match spec_engine_of(m) {
        None => None,
        Some(engine) => Some(
            RouteView {
                engine,
                model: m,
                source_language: match source {
                    Some(x) => x,
                    None => r.source_language,
                },
                target_language: match target {
                    Some(x) => x,
                    None => r.target_language,
                },
                ..r
            },
        ),
    }
}

/// Applies a route settings patch; says whether it was applied.
pub fn apply_route_settings(route: &mut RouteConfig, patch: RouteSettingsPatch) -> (applied: bool)
    ensures
        match patched_route(
            old(route)@,
            opt_seq(patch.model),
            opt_seq(patch.source_language),
            opt_seq(patch.target_language),
        ) {
            Some(r) => applied && final(route)@ == r,
            None => !applied && final(route)@ == old(route)@,
        },
{
    let model = match patch.model {
        Some(m) => m,
        None => route.model.clone(),
    };
    let source = match patch.source_language {
        Some(s) => s,
        None => route.source_language.clone(),
    };
    let target = match patch.target_language {
        Some(t) => t,
        None => route.target_language.clone(),
    };
    let engine = match engine_of(model.as_str()) {
        Some(e) => e,
        None => return false,
    };
    route.engine = to_owned(engine);
    route.model = model;
    route.source_language = source;
    route.target_language = target;
    true
}

/// The Qwen settings a patch leaves, or `None` when it names a region Qwen does not serve.
/// A workspace identifier is stored trimmed.
pub open spec fn patched_qwen(
    region: Seq<char>,
    workspace: Seq<char>,
    new_region: Option<Seq<char>>,
    new_workspace: Option<Seq<char>>,
) -> Option<(Seq<char>, Seq<char>)> {
    match new_region {
        Some(r) if spec_qwen_region(r) is None => None,
        _ => Some(
            (
                match new_region {
                    Some(r) => r,
                    None => region,
                },
                match new_workspace {
                    Some(w) => trim(w),
                    None => workspace,
                },
            ),
        ),
    }
}

/// Applies a Qwen settings patch; says whether it was applied.
pub fn apply_qwen_settings(config: &mut AppConfig, patch: QwenSettingsPatch) -> (applied: bool)
    ensures
        match patched_qwen(
            old(config)@.qwen_region,
            old(config)@.qwen_workspace_id,
            opt_seq(patch.region),
            opt_seq(patch.workspace_id),
        ) {
            Some((region, workspace)) => applied && final(config)@ == (ConfigView {
                qwen_region: region,
                qwen_workspace_id: workspace,
                ..old(config)@
            }),
            None => !applied && final(config)@ == old(config)@,
        },
{
    if let Some(region) = patch.region {
        if qwen_region(region.as_str()).is_none() {
            return false;
        }
        config.qwen.region = region;
    }
    if let Some(workspace_id) = patch.workspace_id {
        config.qwen.workspace_id = trim_str(workspace_id.as_str());
    }
    true
}

/// The overlay switches a patch leaves. The overlay never hides both sides: with neither
/// left on, the translation comes back. A layout the overlay does not know is ignored.
pub open spec fn patched_overlay(
    o: OverlayView,
    always_on_top: Option<bool>,
    click_through: Option<bool>,
    show_original: Option<bool>,
    show_translation: Option<bool>,
    layout: Option<Seq<char>>,
) -> OverlayView {
    let original = match show_original {
        Some(b) => b,
        None => o.show_original,
    };
    let translation = match show_translation {
        Some(b) => b,
        None => o.show_translation,
    };
    OverlayView {
        always_on_top: match always_on_top {
            Some(b) => b,
            None => o.always_on_top,
        },
        click_through: match click_through {
            Some(b) => b,
            None => o.click_through,
        },
        show_original: original,
        show_translation: translation || !original,
        layout: match layout {
            Some(l) if spec_is_overlay_layout(l) => l,
            _ => o.layout,
        },
        ..o
    }
}

/// Applies the switches and layout of an overlay patch; says whether the window flags
/// (always on top, click-through) have to be applied again.
pub fn apply_overlay_patch(config: &mut AppConfig, patch: OverlaySettingsPatch) -> (flags: bool)
    ensures
        flags == (patch.always_on_top is Some || patch.click_through is Some),
        final(config)@ == (ConfigView {
            overlay: patched_overlay(
                old(config)@.overlay,
                patch.always_on_top,
                patch.click_through,
                patch.show_original,
                patch.show_translation,
                opt_seq(patch.layout),
            ),
            ..old(config)@
        }),
{
    let flags = patch.always_on_top.is_some() || patch.click_through.is_some();
    if let Some(always_on_top) = patch.always_on_top {
        config.overlay.always_on_top = always_on_top;
    }
    if let Some(click_through) = patch.click_through {
        config.overlay.click_through = click_through;
    }
    if let Some(show_original) = patch.show_original {
        config.overlay.show_original = show_original;
    }
    if let Some(show_translation) = patch.show_translation {
        config.overlay.show_translation = show_translation;
    }
    if !config.overlay.show_original && !config.overlay.show_translation {
        config.overlay.show_translation = true;
    }
    if let Some(layout) = patch.layout {
        if is_overlay_layout(layout.as_str()) {
            config.overlay.layout = layout;
        }
    }
    flags
}

/// Whether a route may be switched: the last remaining source cannot be turned off, there
/// would be nothing left to translate.
pub open spec fn spec_may_switch(c: ConfigView, route_id: Seq<char>, enabled: bool) -> bool {
    enabled || spec_enabled_route_ids(c) != seq![route_id]
}

pub fn may_switch(config: &AppConfig, route_id: &str, enabled: bool) -> (r: bool)
    ensures
        r == spec_may_switch(config@, route_id@, enabled),
{
    if enabled {
        return true;
    }
    let enabled_ids = enabled_route_ids(config);
    let only = enabled_ids.len() == 1 && str_eq(enabled_ids[0], route_id);
    proof {
        if only {
            assert(static_views(enabled_ids@) =~= seq![route_id@]);
        } else if enabled_ids@.len() == 1 {
            assert(static_views(enabled_ids@)[0] == enabled_ids@[0]@);
            assert(static_views(enabled_ids@)[0] != seq![route_id@][0]);
        } else {
            assert(static_views(enabled_ids@).len() != seq![route_id@].len());
        }
    }
    !only
}

/// The system capture target a selection leaves: everything for `all`, one listed
/// application by its bundle identifier, or `None` for an identifier no listed application
/// has.
pub open spec fn capture_target(
    bundle_id: Seq<char>,
    applications: Seq<CapturableApplication>,
) -> Option<(Seq<char>, Option<(Seq<char>, Seq<char>)>)> {
    if bundle_id == "all"@ {
        Some(("all"@, None))
    } else if exists|i: int| 0 <= i < applications.len() && #[trigger] applications[i].bundle_id@
        == bundle_id {
        let i = choose|i: int|
            0 <= i < applications.len() && #[trigger] applications[i].bundle_id@ == bundle_id
                && forall|j: int| 0 <= j < i ==> #[trigger] applications[j].bundle_id@ != bundle_id;
        Some(("application"@, Some((applications[i].bundle_id@, applications[i].name@))))
    } else {
        None
    }
}

/// The first listed application with this bundle identifier.
fn find_application(applications: &Vec<CapturableApplication>, bundle_id: &str) -> (r: Option<
    usize,
>)
    ensures
        match r {
            Some(i) => i < applications@.len() && applications@[i as int].bundle_id@ == bundle_id@
                && forall|j: int| 0 <= j < i ==> #[trigger] applications@[j].bundle_id@ != bundle_id@,
            None => forall|j: int|
                0 <= j < applications@.len() ==> #[trigger] applications@[j].bundle_id@ != bundle_id@,
        },
{
    let mut i: usize = 0;
    while i < applications.len()
        invariant
            0 <= i <= applications@.len(),
            forall|j: int| 0 <= j < i ==> #[trigger] applications@[j].bundle_id@ != bundle_id@,
        decreases applications@.len() - i,
    {
        if str_eq(applications[i].bundle_id.as_str(), bundle_id) {
            return Some(i);
        }
        i = i + 1;
    }
    None
}

/// Points system capture at everything or at one listed application; says whether the
/// selection was applied.
pub fn apply_capture(
    config: &mut AppConfig,
    bundle_id: &str,
    applications: &Vec<CapturableApplication>,
) -> (applied: bool)
    ensures
        match capture_target(bundle_id@, applications@) {
            Some((scope, application)) => {
                &&& applied
                &&& final(config)@.system_audio.scope == scope
                &&& final(config)@.system_audio.application == match application {
                    Some((b, n)) => Some(crate::config::ApplicationView { bundle_id: b, name: n }),
                    None => None,
                }
                &&& final(config)@ == (ConfigView {
                    system_audio: final(config)@.system_audio,
                    ..old(config)@
                })
            },
            None => !applied && final(config)@ == old(config)@,
        },
{
    proof {
        reveal_strlit("all");
        reveal_strlit("application");
    }
    if str_eq(bundle_id, "all") {
        config.audio.system.scope = to_owned("all");
        config.audio.system.application = None;
        return true;
    }
    match find_application(applications, bundle_id) {
        Some(i) => {
            let application = &applications[i];
            config.audio.system.scope = to_owned("application");
            config.audio.system.application = Some(
                ApplicationReference {
                    bundle_id: application.bundle_id.clone(),
                    name: application.name.clone(),
                },
            );
            proof {
                let k = choose|k: int|
                    0 <= k < applications@.len() && #[trigger] applications@[k].bundle_id@
                        == bundle_id@ && forall|j: int|
                        0 <= j < k ==> #[trigger] applications@[j].bundle_id@ != bundle_id@;
                if k < i {
                    assert(applications@[k].bundle_id@ != bundle_id@);
                }
                if i < k {
                    assert(applications@[i as int].bundle_id@ != bundle_id@);
                }
            }
            true
        },
        None => false,
    }
}

/// The notice code that blocks a session start, if any: a session needs a source, a system
/// route scoped to one application needs that application, and every enabled route needs a
/// combination its translator serves and a usable translator.
pub open spec fn spec_route_blocker(
    c: ConfigView,
    route: RouteView,
    credentials: CredentialStore,
) -> Option<Seq<char>> {
    match spec_route_config_error(route.model, route.source_language, route.target_language) {
        Some(code) => Some(code),
        None => spec_start_blocker(route.engine, c, credentials),
    }
}

pub open spec fn spec_start_problem(c: ConfigView, credentials: CredentialStore) -> Option<
    Seq<char>,
> {
    if !c.system_route.enabled && !c.microphone_route.enabled {
        Some("chooseAudioSource"@)
    } else if c.system_route.enabled && c.system_audio.scope == "application"@
        && c.system_audio.application is None {
        Some("chooseApplication"@)
    } else if c.system_route.enabled && spec_route_blocker(c, c.system_route, credentials) is Some {
        spec_route_blocker(c, c.system_route, credentials)
    } else if c.microphone_route.enabled {
        spec_route_blocker(c, c.microphone_route, credentials)
    } else {
        None
    }
}

fn route_blocker(config: &AppConfig, route: &RouteConfig, credentials: &CredentialStore) -> (r:
    Option<&'static str>)
    ensures
        opt_str(r) == spec_route_blocker(config@, route@, *credentials),
{
    match route_config_error(
        route.model.as_str(),
        route.source_language.as_str(),
        route.target_language.as_str(),
    ) {
        Some(code) => Some(code),
        None => start_blocker(route.engine.as_str(), config, credentials),
    }
}

pub fn validate_start(config: &AppConfig, credentials: &CredentialStore) -> (r: Option<
    &'static str,
>)
    ensures
        opt_str(r) == spec_start_problem(config@, *credentials),
{
    proof {
        reveal_strlit("chooseAudioSource");
        reveal_strlit("chooseApplication");
        reveal_strlit("application");
    }
    if !config.routes.system.enabled && !config.routes.microphone.enabled {
        return Some("chooseAudioSource");
    }
    if config.routes.system.enabled && str_eq(config.audio.system.scope.as_str(), "application")
        && config.audio.system.application.is_none() {
        return Some("chooseApplication");
    }
    if config.routes.system.enabled {
        if let Some(code) = route_blocker(config, &config.routes.system, credentials) {
            return Some(code);
        }
    }
    if config.routes.microphone.enabled {
        return route_blocker(config, &config.routes.microphone, credentials);
    }
    None
}

/// What a failed route does next: while its budget lasts, a retryable failure schedules
/// another attempt; anything else gives up.
pub open spec fn spec_retrying(attempt: u8, retryable: bool) -> bool {
    retryable && attempt < MAX_RECONNECT_ATTEMPTS
}

/// Where a provider's event goes: a token that owns neither slot belongs to a session
/// already replaced or torn down and is ignored; a pending session only ever promotes
/// itself or fails, its fragments are dropped.
pub enum EventRoute {
    Ignore,
    PromotePending,
    Ready,
    Fragment,
    FailPending,
    Fail { retryable: bool },
}

pub open spec fn spec_event_route(owns: bool, pending: bool, event: crate::realtime::EventView) -> EventRoute {
    if !owns && !pending {
        EventRoute::Ignore
    } else {
        match event {
            crate::realtime::EventView::Ready => if pending {
                EventRoute::PromotePending
            } else {
                EventRoute::Ready
            },
            crate::realtime::EventView::Fragment { .. } => if pending {
                EventRoute::Ignore
            } else {
                EventRoute::Fragment
            },
            crate::realtime::EventView::Error { retryable, .. } => if pending {
                EventRoute::FailPending
            } else {
                EventRoute::Fail { retryable }
            },
            crate::realtime::EventView::Closed(_) => if pending {
                EventRoute::FailPending
            } else {
                EventRoute::Fail { retryable: true }
            },
        }
    }
}

pub fn event_route(owns: bool, pending: bool, event: &Event) -> (r: EventRoute)
    ensures
        r == spec_event_route(owns, pending, event@),
{
    if !owns && !pending {
        return EventRoute::Ignore;
    }
    match event {
        Event::Ready => if pending {
            EventRoute::PromotePending
        } else {
            EventRoute::Ready
        },
        Event::Fragment { .. } => if pending {
            EventRoute::Ignore
        } else {
            EventRoute::Fragment
        },
        Event::Error { retryable, .. } => if pending {
            EventRoute::FailPending
        } else {
            EventRoute::Fail { retryable: *retryable }
        },
        Event::Closed(_) => if pending {
            EventRoute::FailPending
        } else {
            EventRoute::Fail { retryable: true }
        },
    }
}

/// What a settings change does to one route of a running session.
#[derive(Clone, Copy, Debug, PartialEq, Eq, Structural)]
pub enum RoutePlan {
    /// The route is switched off: its session and capture stop.
    Stop,
    /// A half-edited route keeps whatever session it has; swapping to a combination the
    /// translator cannot serve would only kill working subtitles.
    Keep,
    /// A running route rebuilds only what changed.
    Refresh,
    /// A route switched on comes up.
    Open,
}

pub open spec fn spec_route_plan(enabled: bool, config_error: bool, running: bool) -> RoutePlan {
    if !enabled {
        RoutePlan::Stop
    } else if config_error {
        RoutePlan::Keep
    } else if running {
        RoutePlan::Refresh
    } else {
        RoutePlan::Open
    }
}

pub fn route_plan(enabled: bool, config_error: bool, running: bool) -> (r: RoutePlan)
    ensures
        r == spec_route_plan(enabled, config_error, running),
{
    if !enabled {
        RoutePlan::Stop
    } else if config_error {
        RoutePlan::Keep
    } else if running {
        RoutePlan::Refresh
    } else {
        RoutePlan::Open
    }
}

/// Whether a session state takes settings changes live.
pub open spec fn spec_reconfigures(s: TranslationState) -> bool {
    s is Starting || s is Running || s is Failed
}

/// A route's failure count never passes the budget, and a failure nothing can fix always
/// gives up.
pub proof fn law_retries_are_bounded(attempt: u8, retryable: bool)
    requires
        attempt <= MAX_RECONNECT_ATTEMPTS,
    ensures
        spec_retrying(attempt, retryable) ==> attempt + 1 <= MAX_RECONNECT_ATTEMPTS,
        !retryable ==> !spec_retrying(attempt, retryable),
        attempt == MAX_RECONNECT_ATTEMPTS ==> !spec_retrying(attempt, retryable),
{
}

/// Events from a session the route no longer holds are ignored, whatever they say.
pub proof fn law_stale_events_are_ignored(event: crate::realtime::EventView)
    ensures
        spec_event_route(false, false, event) is Ignore,
{
}

/// A pending session never delivers transcript text, and its failure never counts against
/// the live session.
pub proof fn law_pending_sessions_stay_silent(event: crate::realtime::EventView, owns: bool)
    ensures
        !(spec_event_route(owns, true, event) is Fragment),
        !(spec_event_route(owns, true, event) is Fail),
{
}

/// The last remaining source cannot be switched off, and any other change goes through.
pub proof fn law_last_source_stays_on(c: ConfigView, route_id: Seq<char>)
    requires
        spec_enabled_route_ids(c) == seq![route_id],
    ensures
        !spec_may_switch(c, route_id, false),
        spec_may_switch(c, route_id, true),
{
}

/// A route settings patch naming a model no translator serves changes nothing.
pub proof fn law_unknown_models_are_rejected(
    r: RouteView,
    model: Seq<char>,
    source: Option<Seq<char>>,
    target: Option<Seq<char>>,
)
    requires
        spec_engine_of(model) is None,
    ensures
        patched_route(r, Some(model), source, target) is None,
{
}

/// After any overlay patch at least one side of the subtitles is shown.
pub proof fn law_overlay_never_hides_both_sides(
    o: OverlayView,
    always_on_top: Option<bool>,
    click_through: Option<bool>,
    show_original: Option<bool>,
    show_translation: Option<bool>,
    layout: Option<Seq<char>>,
)
    ensures
        ({
            let p = patched_overlay(o, always_on_top, click_through, show_original, show_translation, layout);
            p.show_original || p.show_translation
        }),
{
}

/// A start goes ahead only when every enabled route can run, whichever route it is: at
/// least one route is enabled, the system route's application is chosen when it is scoped
/// to one, and no enabled route has a blocker. In particular an enabled route whose
/// translator is known but whose key is not held refuses the start.
pub proof fn law_start_needs_every_enabled_route_clear(c: ConfigView, credentials: CredentialStore)
    ensures
        spec_start_problem(c, credentials) is None <==> {
            &&& c.system_route.enabled || c.microphone_route.enabled
            &&& c.system_route.enabled ==> !(c.system_audio.scope == "application"@ && c.system_audio.application is None)
                && spec_route_blocker(c, c.system_route, credentials) is None
            &&& c.microphone_route.enabled ==> spec_route_blocker(c, c.microphone_route, credentials) is None
        },
        c.microphone_route.enabled && crate::translators::spec_is_known_engine(c.microphone_route.engine)
            && !credentials.holds(c.microphone_route.engine) ==> spec_start_problem(c, credentials) is Some,
        c.system_route.enabled && crate::translators::spec_is_known_engine(c.system_route.engine)
            && !credentials.holds(c.system_route.engine) ==> spec_start_problem(c, credentials) is Some,
{
}

} // verus!
