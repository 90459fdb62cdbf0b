//! The controller that owns a translation session: its settings, its routes, its clock and
//! journal, and the notice shown to the user. Each entry point folds one request or report
//! into the state and gives back what the shell has to do, in order.

use crate::audio::{CapturableApplication, CaptureRequest};
use crate::clock::SessionClock;
use crate::config::{
    interface_for, normalized, normalized_locale, opt_view, AppConfig, AudioConfig, ConfigView, OverlayConfig,
    OverlayView, QwenConfig, RouteConfig, RouteView,
};
use crate::controller::{
    apply_capture, apply_overlay_patch, apply_qwen_settings, apply_route_settings, capture_target,
    event_route, may_switch, opt_seq, patched_overlay, patched_qwen, patched_route, route_plan,
    slot_name, slot_of, spec_may_switch, spec_retrying, spec_route_plan, spec_slot_of, spec_start_problem,
    validate_start, ControllerNotice, ControllerRequest, EventRoute, OverlaySettingsPatch, RoutePlan,
    RouteSlot, TranslationCommand, VISIBLE_TURNS,
};
use crate::credentials::CredentialStore;
use crate::journal::{Journal, JournalView};
use crate::realtime::{Event, EventView, FragmentKind};
use crate::route::{
    session_token_is, spec_capture_key, spec_provider_key, ActiveRoute, CaptureKey, ProviderKey, Session,
};
use crate::session_store::SessionData;
use crate::state::{ClockChange, RouteState, TranslationState, spec_is_active};
use crate::text::{str_eq, to_owned};
use crate::transcript::{flushed, pushed, turn_views, TranscriptDraft, TranscriptTurn, TurnView};
use crate::translators::{route_config_error, spec_route_config_error};
use vstd::prelude::*;

verus! {

/// What follows once a configuration write has been attempted.
#[derive(Clone, Copy, Debug, PartialEq, Eq, Structural)]
pub enum AfterSave {
    Nothing,
    /// Apply the new settings to the running session.
    Reconfigure,
    /// Quit the application.
    Exit,
}

/// Work for the shell, carried out in order.
pub enum Effect {
    /// Start the route's capture stream; its outcome comes back through `capture_started`.
    StartCapture { slot: RouteSlot, token: u64, request: CaptureRequest },
    StopCapture { slot: RouteSlot },
    /// Open a translator session for the route's current settings; the handle or the error
    /// comes back through `provider_started`.
    StartProvider { slot: RouteSlot, token: u64, replace: bool },
    StopProvider { handle: u64 },
    /// The route is new: its audio starts from an empty backlog.
    NewBridge { slot: RouteSlot },
    /// Point the route's audio at this session and replay what was held back.
    AttachBridge { slot: RouteSlot, handle: u64 },
    DetachBridge { slot: RouteSlot },
    /// After the reconnect delay, call `reconnect` with this retry.
    ScheduleReconnect { slot: RouteSlot, retry: u64 },
    /// After the flush delay, call `flush_route` with these values.
    ScheduleFlush { slot: RouteSlot, token: u64, version: u64 },
    /// In a second, call `tick` with this generation.
    ScheduleTick { generation: u64 },
    /// Write this configuration, then call `config_saved` with it, the outcome and `then`.
    SaveConfig { config: AppConfig, then: AfterSave },
    /// Write this archive record; a failure comes back through `report_error`.
    PersistJournal { id: String, markdown: String, data: SessionData },
    ShowOverlay { visible: bool },
    ApplyOverlayFlags { always_on_top: bool, click_through: bool },
    ShowSettings,
    /// List the capturable applications and microphones; the lists come back through
    /// `capture_options_loaded`.
    LoadCaptureOptions,
    /// Send every surface a fresh snapshot.
    Publish,
    Exit,
}

/// How the tray shows the session.
pub struct TrayPresentation {
    pub locale: String,
    /// A session exists, paused or not: what the menu offers to end.
    pub translation_active: bool,
    /// Audio is actually being translated: what the icon reports.
    pub translation_running: bool,
    pub overlay_visible: bool,
}

/// A route as the surfaces see it.
pub struct RouteSnapshot {
    pub route_id: String,
    pub config: RouteConfig,
    pub state: RouteState,
    pub error: String,
    pub turns: Vec<TranscriptTurn>,
    pub draft: TranscriptDraft,
}

/// Everything the surfaces show.
pub struct ControllerSnapshot {
    pub locale: String,
    pub preferred_locale: String,
    pub translation_state: TranslationState,
    pub elapsed_seconds: u64,
    pub overlay_visible: bool,
    pub overlay: OverlayConfig,
    pub audio: AudioConfig,
    pub qwen: QwenConfig,
    pub applications: Vec<CapturableApplication>,
    pub microphones: Vec<String>,
    pub capture_loading: bool,
    pub credentials: Vec<(String, bool)>,
    pub routes: Vec<RouteSnapshot>,
    pub notice: Option<ControllerNotice>,
}

pub struct Controller {
    pub config: AppConfig,
    pub translation_state: TranslationState,
    pub overlay_visible: bool,
    pub system: Option<ActiveRoute>,
    pub microphone: Option<ActiveRoute>,
    pub system_turns: Vec<TranscriptTurn>,
    pub microphone_turns: Vec<TranscriptTurn>,
    pub capture_applications: Vec<CapturableApplication>,
    pub capture_microphones: Vec<String>,
    pub capture_loading: bool,
    pub clock: SessionClock,
    pub journal: Option<Journal>,
    /// Hands out the tokens that let stale provider, capture and retry callbacks be ignored.
    pub sequence: u64,
    pub session_generation: u64,
    pub notice: Option<ControllerNotice>,
}

/// The token after `s`, wrapping at the top.
pub open spec fn next_token(s: u64) -> u64 {
    if s == u64::MAX {
        0
    } else {
        (s + 1) as u64
    }
}

pub open spec fn stale_session(route: Option<ActiveRoute>, token: u64) -> bool {
    match route {
        Some(r) => !session_token_is(r.provider, token) && !session_token_is(r.pending, token),
        None => true,
    }
}

fn wrapping_next(s: u64) -> (r: u64)
    ensures
        r == next_token(s),
{
    if s == u64::MAX {
        0
    } else {
        s + 1
    }
}

/// What is written for a configuration: the configuration normalized for its interface
/// language.
pub open spec fn saves(current: ConfigView, written: ConfigView) -> bool {
    exists|interface: Seq<char>|
        interface_for(normalized_locale(current.locale), interface) && written
            == #[trigger] normalized(current, interface)
}

/// The configuration with one route switched on or off.
pub open spec fn with_route_enabled(c: ConfigView, slot: RouteSlot, enabled: bool) -> ConfigView {
    match slot {
        RouteSlot::System => ConfigView { system_route: RouteView { enabled, ..c.system_route }, ..c },
        RouteSlot::Microphone => ConfigView {
            microphone_route: RouteView { enabled, ..c.microphone_route },
            ..c
        },
    }
}

/// The configuration with the overlay shown or hidden.
pub open spec fn with_overlay_enabled(c: ConfigView, enabled: bool) -> ConfigView {
    ConfigView { overlay: OverlayView { enabled, ..c.overlay }, ..c }
}

/// A session in which a route failure tears the route down: one that is neither stopped
/// nor paused.
pub open spec fn tears_down(state: TranslationState) -> bool {
    !(state is Stopped || state is Paused)
}

/// The route after a failure that is not retried: no sessions, no capture stream, failed
/// with the error, and the user told.
pub open spec fn failed_for_good(after: Controller, slot: RouteSlot, error: Seq<char>) -> bool {
    &&& after.route_at(slot) matches Some(f) && f.state is Failed && f.provider is None
        && f.pending is None && f.capture is None && f.error@ == error
    &&& after.notice matches Some(n) && n.message@ == error
}

/// The route after its live session failed with `error`: no sessions, the error shown, and
/// either a retry scheduled or the route failed for good.
pub open spec fn torn_down(before: Controller, after: Controller, slot: RouteSlot, error: Seq<char>, retryable: bool) -> bool {
    after.route_at(slot) matches Some(f) && f.provider is None && f.pending is None && f.error@ == error
        && if spec_retrying(before.route_at(slot)->0.reconnect_attempt, retryable) {
        f.state is Reconnecting && f.retry == Some(next_token(before.sequence))
    } else {
        f.state is Failed && f.capture is None
    }
}

/// A route's settings.
pub open spec fn slot_route(c: ConfigView, slot: RouteSlot) -> RouteView {
    match slot {
        RouteSlot::System => c.system_route,
        RouteSlot::Microphone => c.microphone_route,
    }
}

/// How many of a route's turns the surfaces skip: all but the last `VISIBLE_TURNS`.
pub open spec fn hidden_turns(count: nat) -> int {
    if count > VISIBLE_TURNS {
        count - VISIBLE_TURNS
    } else {
        0
    }
}

/// A route as the surfaces are shown it: its identifier and settings, its state and error
/// (stopped and blank when it is not open), and its latest turns.
pub open spec fn shows_route(c: Controller, slot: RouteSlot, r: RouteSnapshot) -> bool {
    &&& r.route_id@ == crate::controller::slot_id(slot)
    &&& r.config@ == slot_route(c.config@, slot)
    &&& r.state == (match c.route_at(slot) {
        Some(route) => route.state,
        None => RouteState::Stopped,
    })
    &&& r.error@ == (match c.route_at(slot) {
        Some(route) => route.error@,
        None => Seq::<char>::empty(),
    })
    &&& turn_views(r.turns@) == turn_views(c.turns_at(slot)).skip(hidden_turns(c.turns_at(slot).len()))
}

/// The configuration with one route's settings replaced.
pub open spec fn with_route(c: ConfigView, slot: RouteSlot, r: RouteView) -> ConfigView {
    match slot {
        RouteSlot::System => ConfigView { system_route: r, ..c },
        RouteSlot::Microphone => ConfigView { microphone_route: r, ..c },
    }
}

/// Whether the user may ask a route to try again: the session is on and the route has
/// given up.
pub open spec fn retriable(c: Controller, slot: RouteSlot) -> bool {
    &&& spec_is_active(c.translation_state)
    &&& c.route_at(slot) matches Some(r) && r.state is Failed
}

/// A fragment taken in by a route: its assembler moved as `pushed` says, and the turns
/// that made are added to the route's turns.
pub open spec fn took_in(
    before: ActiveRoute,
    after: ActiveRoute,
    turns_before: Seq<TranscriptTurn>,
    turns_after: Seq<TranscriptTurn>,
    kind: FragmentKind,
    text: Seq<char>,
    final_fragment: bool,
) -> bool {
    exists|turns: Seq<TranscriptTurn>, flush: Option<u64>|
        #[trigger] pushed(before.assembler.view(), kind, text, final_fragment, after.assembler.view(), turns, flush)
            && turn_views(turns_after) == turn_views(turns_before) + turn_views(turns)
}

/// A route's settings and the keys derived from them are the same in `a` and `b`.
pub open spec fn same_keys(a: ActiveRoute, b: ActiveRoute) -> bool {
    &&& b.config@ == a.config@
    &&& b.provider_key@ == a.provider_key@
    &&& b.capture_key@ == a.capture_key@
}

/// A route whose keys match the configuration: nothing it depends on has changed.
pub open spec fn keys_current(c: ConfigView, slot: RouteSlot, r: ActiveRoute) -> bool {
    &&& r.provider_key@ == spec_provider_key(c, slot_route(c, slot))
    &&& r.capture_key@ == spec_capture_key(c, slot_route(c, slot))
}

/// What a settings change does to one route of a running session.
pub open spec fn plan_for(c: Controller, slot: RouteSlot) -> RoutePlan {
    let r = slot_route(c.config@, slot);
    spec_route_plan(
        r.enabled,
        spec_route_config_error(r.model, r.source_language, r.target_language) is Some,
        c.route_at(slot) is Some,
    )
}

/// The route after a settings change: gone when switched off, untouched when its
/// settings are half-edited, up when switched on, and rebuilt only where its keys changed
/// when it was running.
pub open spec fn reconfigured(before: Controller, after: Controller, slot: RouteSlot) -> bool {
    match plan_for(before, slot) {
        RoutePlan::Stop => after.route_at(slot) is None,
        RoutePlan::Keep => after.route_at(slot) == before.route_at(slot),
        RoutePlan::Open => after.route_at(slot) is Some,
        RoutePlan::Refresh => after.route_at(slot) matches Some(f) && (
        if !(before.route_at(slot)->0.state is Failed) && keys_current(before.config@, slot, before.route_at(slot)->0) {
            f == before.route_at(slot)->0
        } else {
            keys_current(before.config@, slot, f)
        }),
    }
}

/// Work on one route leaves the other route alone.
pub open spec fn keeps_other(a: Controller, b: Controller, slot: RouteSlot) -> bool {
    &&& slot is System ==> b.microphone == a.microphone
    &&& slot is Microphone ==> b.system == a.system
}

/// A session whose routes follow a settings change at once: one starting, running or
/// failed. A stopped or paused one picks the settings up when it next opens its routes.
pub open spec fn follows_settings(state: TranslationState) -> bool {
    state is Starting || state is Running || state is Failed
}

/// What a start does from an inactive session: a configuration that cannot start is
/// answered with the problem's code and changes nothing else; one that can closes whatever
/// routes a failed session left, opens a fresh record with the overlay showing, and brings
/// each enabled route up from nothing while the session is starting.
pub open spec fn started(before: Controller, credentials: CredentialStore, after: Controller, effects: Seq<Effect>) -> bool {
    !spec_is_active(before.translation_state) ==> match spec_start_problem(before.config@, credentials) {
        Some(code) => {
            &&& after.notice matches Some(n) && n.code matches Some(c) && c@ == code
            &&& after.translation_state == before.translation_state
            &&& after.system == before.system
            &&& after.microphone == before.microphone
            &&& after.journal == before.journal
            &&& after.config@ == before.config@
        },
        None => {
            &&& after.journal is Some
            &&& after.notice is None
            &&& after.overlay_visible
            &&& after.config@ == with_overlay_enabled(before.config@, true)
            &&& after.translation_state == TranslationState::Starting
            &&& opened_fresh(before.config@, after, effects)
            &&& closes_routes(before, effects)
        },
    }
}

/// The routes after the enabled ones are brought up: each enabled route is open on its
/// current settings, and a disabled one is as it was.
pub open spec fn opened_enabled(a: Controller, b: Controller) -> bool {
    &&& slot_route(a.config@, RouteSlot::System).enabled ==> (b.system matches Some(f)
        && f.config@ == slot_route(a.config@, RouteSlot::System)
        && keys_current(a.config@, RouteSlot::System, f))
    &&& slot_route(a.config@, RouteSlot::Microphone).enabled ==> (b.microphone matches Some(f)
        && f.config@ == slot_route(a.config@, RouteSlot::Microphone)
        && keys_current(a.config@, RouteSlot::Microphone, f))
    &&& !slot_route(a.config@, RouteSlot::System).enabled ==> b.system == a.system
    &&& !slot_route(a.config@, RouteSlot::Microphone).enabled ==> b.microphone == a.microphone
}

/// A route that waits on the replacement session with this token.
pub open spec fn owns_pending_session(c: Controller, slot: RouteSlot, token: u64) -> bool {
    c.route_at(slot) matches Some(r) && session_token_is(r.pending, token)
}

/// The capture a route asks for: the configured microphone for the microphone route, and
/// for the system route the application its audio is scoped to, if any.
pub open spec fn requests_capture(q: CaptureRequest, c: ConfigView, slot: RouteSlot) -> bool {
    match slot {
        RouteSlot::Microphone => q matches CaptureRequest::Microphone { device }
            && crate::route::opt_string(device) == c.microphone_device,
        RouteSlot::System => q matches CaptureRequest::System { application_bundle_id }
            && crate::route::opt_string(application_bundle_id) == (if c.system_audio.scope == "application"@ {
            match c.system_audio.application {
                Some(a) => Some(a.bundle_id),
                None => None,
            }
        } else {
            None
        }),
    }
}

/// The effects are those before with one more at the end.
pub open spec fn appended_one(before: Seq<Effect>, after: Seq<Effect>) -> bool {
    after.len() == before.len() + 1 && after.subrange(0, before.len() as int) == before
}

/// The turns a session record holds, oldest first, without the clock readings beside them.
pub open spec fn recorded_turns(turns: Seq<(TurnView, u64)>) -> Seq<TurnView> {
    turns.map_values(|e: (TurnView, u64)| e.0)
}

/// A session record after `turns` were added to it: the same record, those turns at the end.
pub open spec fn journal_took(before: JournalView, after: JournalView, turns: Seq<TurnView>) -> bool {
    &&& recorded_turns(after.turns) == recorded_turns(before.turns) + turns
    &&& after.id == before.id
    &&& after.started_at == before.started_at
    &&& after.ended_at == before.ended_at
    &&& after.config == before.config
}

/// The effects run before `before` are still the first ones of `after`.
pub open spec fn extends(before: Seq<Effect>, after: Seq<Effect>) -> bool {
    before.len() <= after.len() && after.subrange(0, before.len() as int) == before
}

/// `part` runs, in order and back to back, somewhere in `effects`.
pub open spec fn emits(effects: Seq<Effect>, part: Seq<Effect>) -> bool {
    exists|k: int| 0 <= k && k + part.len() <= effects.len() && #[trigger] effects.subrange(k, k + part.len()) == part
}

/// The handles of a route's translator sessions: the live one, then the pending one.
pub open spec fn route_handles(r: ActiveRoute) -> Seq<u64> {
    match (r.provider, r.pending) {
        (Some(p), Some(q)) => seq![p.handle, q.handle],
        (Some(p), None) => seq![p.handle],
        (None, Some(q)) => seq![q.handle],
        (None, None) => Seq::<u64>::empty(),
    }
}

/// One `StopProvider` per handle, in order.
pub open spec fn stop_providers(handles: Seq<u64>) -> Seq<Effect> {
    handles.map_values(|h: u64| Effect::StopProvider { handle: h })
}

/// What closing a route asks of the shell: its capture stream stopped, each of its
/// translator sessions stopped, and its audio detached.
pub open spec fn route_teardown(slot: RouteSlot, r: ActiveRoute) -> Seq<Effect> {
    seq![Effect::StopCapture { slot }] + stop_providers(route_handles(r)) + seq![Effect::DetachBridge { slot }]
}

/// A record with this id is handed to the shell to be written.
pub open spec fn persists_record(effects: Seq<Effect>, id: Seq<char>) -> bool {
    exists|i: int| 0 <= i < effects.len() && #[trigger] is_persist_of(effects[i], id)
}

pub open spec fn is_persist_of(e: Effect, id: Seq<char>) -> bool {
    e matches Effect::PersistJournal { id: x, .. } && x@ == id
}

/// Later effects never take back earlier ones.
pub proof fn lemma_extends_trans(a: Seq<Effect>, b: Seq<Effect>, c: Seq<Effect>)
    requires
        extends(a, b),
        extends(b, c),
    ensures
        extends(a, c),
{
    assert(c.subrange(0, a.len() as int) =~= b.subrange(0, a.len() as int));
}

/// What was emitted stays emitted as more effects follow.
pub proof fn lemma_emits_kept(before: Seq<Effect>, after: Seq<Effect>, part: Seq<Effect>)
    requires
        emits(before, part),
        extends(before, after),
    ensures
        emits(after, part),
{
    let k = choose|k: int| 0 <= k && k + part.len() <= before.len() && #[trigger] before.subrange(k, k + part.len()) == part;
    assert(after.subrange(k, k + part.len()) =~= before.subrange(k, k + part.len()));
}

/// A record handed over stays handed over as more effects follow.
pub proof fn lemma_persists_kept(before: Seq<Effect>, after: Seq<Effect>, id: Seq<char>)
    requires
        persists_record(before, id),
        extends(before, after),
    ensures
        persists_record(after, id),
{
    let i = choose|i: int| 0 <= i < before.len() && #[trigger] is_persist_of(before[i], id);
    assert(after[i] == after.subrange(0, before.len() as int)[i]);
    assert(is_persist_of(after[i], id));
}

/// What was appended right after `before` is emitted.
pub proof fn lemma_emits_appended(before: Seq<Effect>, part: Seq<Effect>, after: Seq<Effect>)
    requires
        extends(before + part, after),
    ensures
        emits(after, part),
        extends(before, after),
{
    let k = before.len() as int;
    assert(after.subrange(k, k + part.len()) =~= (before + part).subrange(k, k + part.len()));
    assert(after.subrange(k, k + part.len()) =~= part);
    assert(after.subrange(0, k) =~= (before + part).subrange(0, k));
    assert((before + part).subrange(0, k) =~= before);
}

/// Effects extend themselves.
pub proof fn lemma_extends_refl(a: Seq<Effect>)
    ensures
        extends(a, a),
{
    assert(a.subrange(0, a.len() as int) =~= a);
}

/// A record that took turns keeps its id and has at least as many turns.
pub proof fn lemma_journal_took_grows(before: JournalView, after: JournalView, turns: Seq<TurnView>)
    requires
        journal_took(before, after, turns),
    ensures
        after.id == before.id,
        after.turns.len() >= before.turns.len(),
{
    assert(recorded_turns(after.turns).len() == after.turns.len());
    assert(recorded_turns(before.turns).len() == before.turns.len());
}

/// Every route open in `before` was closed down in `effects`.
pub open spec fn closes_routes(before: Controller, effects: Seq<Effect>) -> bool {
    &&& before.system matches Some(r) ==> emits(effects, route_teardown(RouteSlot::System, r))
    &&& before.microphone matches Some(r) ==> emits(effects, route_teardown(RouteSlot::Microphone, r))
}

/// The record, if any, kept its id and lost no turns.
pub open spec fn journal_grew(before: Option<Journal>, after: Option<Journal>) -> bool {
    before matches Some(j) ==> (after matches Some(k) && k.view().id == j.view().id
        && k.view().turns.len() >= j.view().turns.len())
}

/// What a failed route asks of the shell: its audio detached and each of its translator
/// sessions stopped, then either a reconnect scheduled under `retry` or its capture stream
/// stopped, then a fresh snapshot.
pub open spec fn failure_effects(slot: RouteSlot, r: ActiveRoute, retrying: bool, retry: u64) -> Seq<Effect> {
    seq![Effect::DetachBridge { slot }] + stop_providers(route_handles(r)) + (if retrying {
        seq![Effect::ScheduleReconnect { slot, retry }]
    } else {
        seq![Effect::StopCapture { slot }]
    }) + seq![Effect::Publish]
}

/// At `k` the shell is asked, in order, for a fresh audio bridge for the route, for the
/// route's capture stream and for its first translator session.
pub open spec fn brought_up_at(effects: Seq<Effect>, k: int, slot: RouteSlot, c: ConfigView) -> bool {
    &&& 0 <= k && k + 3 <= effects.len()
    &&& effects[k] == Effect::NewBridge { slot }
    &&& effects[k + 1] matches Effect::StartCapture { slot: s, request, .. } && s == slot
        && requests_capture(request, c, slot)
    &&& effects[k + 2] matches Effect::StartProvider { slot: s, replace, .. } && s == slot && !replace
}

/// A route is brought up from nothing somewhere in `effects`.
pub open spec fn brings_up(effects: Seq<Effect>, slot: RouteSlot, c: ConfigView) -> bool {
    exists|k: int| #[trigger] brought_up_at(effects, k, slot, c)
}

/// Every open route is still dialling its translator.
pub open spec fn all_dialling(c: Controller) -> bool {
    &&& c.system matches Some(r) ==> crate::state::dialling(r.state)
    &&& c.microphone matches Some(r) ==> crate::state::dialling(r.state)
}

/// A bring-up stays in the effects as more follow.
pub proof fn lemma_brings_up_kept(before: Seq<Effect>, after: Seq<Effect>, slot: RouteSlot, c: ConfigView)
    requires
        brings_up(before, slot, c),
        extends(before, after),
    ensures
        brings_up(after, slot, c),
{
    let k = choose|k: int| #[trigger] brought_up_at(before, k, slot, c);
    let prefix = after.subrange(0, before.len() as int);
    assert(after[k] == prefix[k]);
    assert(after[k + 1] == prefix[k + 1]);
    assert(after[k + 2] == prefix[k + 2]);
    assert(brought_up_at(after, k, slot, c));
}

/// Adding one effect keeps the ones before.
pub proof fn lemma_push_extends(a: Seq<Effect>, e: Effect)
    ensures
        extends(a, a.push(e)),
{
    assert(a.push(e).subrange(0, a.len() as int) =~= a);
}

/// A session still starting whose open routes all dial stays starting.
pub proof fn lemma_dialling_stays_starting(c: Controller)
    requires
        all_dialling(c),
    ensures
        crate::state::spec_aggregated(TranslationState::Starting, c.route_states()) == TranslationState::Starting,
{
    let states = c.route_states();
    assert forall|i: int| 0 <= i < states.len() implies crate::state::dialling(#[trigger] states[i]) by {
        match c.system {
            Some(r) => {
                if i == 0 {
                    assert(states[i] == r.state);
                } else {
                    assert(states[i] == c.microphone->0.state);
                }
            },
            None => {
                assert(states[i] == c.microphone->0.state);
            },
        }
    }
    if states.len() > 0 {
        assert(crate::state::dialling(states[0]));
        assert(!(exists|i: int| 0 <= i < states.len() && crate::state::carries(#[trigger] states[i])));
    }
}

/// The routes of a session opened from none: each enabled route open on its current
/// settings, still dialling, and brought up in `effects`; each disabled one closed.
pub open spec fn opened_fresh(c: ConfigView, after: Controller, effects: Seq<Effect>) -> bool {
    &&& slot_route(c, RouteSlot::System).enabled ==> (after.system matches Some(f)
        && f.config@ == slot_route(c, RouteSlot::System) && keys_current(c, RouteSlot::System, f)
        && f.state is Connecting && brings_up(effects, RouteSlot::System, c))
    &&& slot_route(c, RouteSlot::Microphone).enabled ==> (after.microphone matches Some(f)
        && f.config@ == slot_route(c, RouteSlot::Microphone) && keys_current(c, RouteSlot::Microphone, f)
        && f.state is Connecting && brings_up(effects, RouteSlot::Microphone, c))
    &&& !slot_route(c, RouteSlot::System).enabled ==> after.system is None
    &&& !slot_route(c, RouteSlot::Microphone).enabled ==> after.microphone is None
}

/// A route whose label and reconfiguring flag were just recomputed from `state`,
/// `reconfiguring` and what the route now holds, in a session whose state then folded in
/// every open route's, starting from `session`.
pub open spec fn refreshed_in(
    after: Controller,
    slot: RouteSlot,
    state: RouteState,
    reconfiguring: bool,
    session: TranslationState,
) -> bool {
    &&& after.route_at(slot) matches Some(f) && (f.state, f.reconfiguring) == crate::route::refreshed(
        state,
        f.provider,
        f.capture_ready,
        reconfiguring,
        f.reconnect_attempt,
    )
    &&& after.translation_state == crate::state::spec_aggregated(session, after.route_states())
}

/// What showing or hiding the overlay asks of the shell first: the window shown or
/// hidden, then its flags, with clicks passing through only while it shows.
pub open spec fn overlay_effects(visible: bool, o: OverlayView) -> Seq<Effect> {
    seq![
        Effect::ShowOverlay { visible },
        Effect::ApplyOverlayFlags { always_on_top: o.always_on_top, click_through: o.click_through && visible },
    ]
}

/// A request for a route's capture stream under `token`, as its settings ask for it.
pub open spec fn is_capture_ask(e: Effect, slot: RouteSlot, c: ConfigView, token: u64) -> bool {
    e matches Effect::StartCapture { slot: s, token: t, request } && s == slot && t == token
        && requests_capture(request, c, slot)
}

/// The route's capture stream is asked for under `token` somewhere in `effects`.
pub open spec fn asks_capture(effects: Seq<Effect>, slot: RouteSlot, c: ConfigView, token: u64) -> bool {
    exists|i: int| 0 <= i < effects.len() && #[trigger] is_capture_ask(effects[i], slot, c, token)
}

/// A request for a first translator session for the route, not a replacement.
pub open spec fn is_provider_ask(e: Effect, slot: RouteSlot) -> bool {
    e matches Effect::StartProvider { slot: s, replace, .. } && s == slot && !replace
}

/// A first translator session for the route is asked for somewhere in `effects`.
pub open spec fn asks_provider(effects: Seq<Effect>, slot: RouteSlot) -> bool {
    exists|i: int| 0 <= i < effects.len() && #[trigger] is_provider_ask(effects[i], slot)
}

/// What opening a route asks of the shell: a route that was not open is brought up from
/// nothing; an open one gets a capture stream if it had none, recorded under the token
/// asked for, and a translator session if it had none.
pub open spec fn reopens(
    effects: Seq<Effect>,
    before: Option<ActiveRoute>,
    after: Option<ActiveRoute>,
    slot: RouteSlot,
    c: ConfigView,
) -> bool {
    match before {
        None => brings_up(effects, slot, c),
        Some(r) => {
            &&& r.capture is None ==> (after matches Some(f) && f.capture matches Some(t) && asks_capture(
                effects,
                slot,
                c,
                t,
            ))
            &&& r.provider is None ==> asks_provider(effects, slot)
        },
    }
}

/// What opening asked for stays asked for as more effects follow.
pub proof fn lemma_reopens_kept(
    before: Seq<Effect>,
    after: Seq<Effect>,
    was: Option<ActiveRoute>,
    now: Option<ActiveRoute>,
    slot: RouteSlot,
    c: ConfigView,
)
    requires
        reopens(before, was, now, slot, c),
        extends(before, after),
    ensures
        reopens(after, was, now, slot, c),
{
    let prefix = after.subrange(0, before.len() as int);
    match was {
        None => {
            lemma_brings_up_kept(before, after, slot, c);
        },
        Some(r) => {
            if r.capture is None {
                let t = now->0.capture->0;
                let i = choose|i: int| 0 <= i < before.len() && #[trigger] is_capture_ask(before[i], slot, c, t);
                assert(after[i] == prefix[i]);
                assert(is_capture_ask(after[i], slot, c, t));
            }
            if r.provider is None {
                let i = choose|i: int| 0 <= i < before.len() && #[trigger] is_provider_ask(before[i], slot);
                assert(after[i] == prefix[i]);
                assert(is_provider_ask(after[i], slot));
            }
        },
    }
}

/// Each enabled route was opened as `reopens` says, from what it was in `before` to what
/// it is in `after`.
pub open spec fn reopened_enabled(before: Controller, after: Controller, effects: Seq<Effect>) -> bool {
    &&& slot_route(before.config@, RouteSlot::System).enabled ==> reopens(
        effects,
        before.system,
        after.system,
        RouteSlot::System,
        before.config@,
    )
    &&& slot_route(before.config@, RouteSlot::Microphone).enabled ==> reopens(
        effects,
        before.microphone,
        after.microphone,
        RouteSlot::Microphone,
        before.config@,
    )
}

/// What bringing routes up leaves alone: the settings, the notice, the record and the
/// overlay.
pub open spec fn keeps_settings(a: Controller, b: Controller) -> bool {
    &&& b.config@ == a.config@
    &&& b.notice == a.notice
    &&& b.journal == a.journal
    &&& b.overlay_visible == a.overlay_visible
}

impl Controller {
    pub open spec fn route_at(&self, slot: RouteSlot) -> Option<ActiveRoute> {
        match slot {
            RouteSlot::System => self.system,
            RouteSlot::Microphone => self.microphone,
        }
    }

    /// The finished turns a route has shown this session, oldest first.
    pub open spec fn turns_at(&self, slot: RouteSlot) -> Seq<TranscriptTurn> {
        match slot {
            RouteSlot::System => self.system_turns@,
            RouteSlot::Microphone => self.microphone_turns@,
        }
    }

    pub fn new(config: AppConfig) -> (r: Self)
        ensures
            r.config@ == config@,
            r.translation_state == TranslationState::Stopped,
            !r.overlay_visible,
            r.system is None,
            r.microphone is None,
            r.journal is None,
            r.notice is None,
    {
        Controller {
            config,
            translation_state: TranslationState::Stopped,
            overlay_visible: false,
            system: None,
            microphone: None,
            system_turns: Vec::new(),
            microphone_turns: Vec::new(),
            capture_applications: Vec::new(),
            capture_microphones: Vec::new(),
            capture_loading: false,
            clock: SessionClock::new(),
            journal: None,
            sequence: 0,
            session_generation: 0,
            notice: None,
        }
    }

    fn take_route(&mut self, slot: RouteSlot) -> (r: Option<ActiveRoute>)
        ensures
            r == old(self).route_at(slot),
            final(self).route_at(slot) is None,
            *final(self) == (Controller { system: final(self).system, microphone: final(self).microphone, ..*old(self) }),
            slot is System ==> final(self).microphone == old(self).microphone,
            slot is Microphone ==> final(self).system == old(self).system,
    {
        match slot {
            RouteSlot::System => self.system.take(),
            RouteSlot::Microphone => self.microphone.take(),
        }
    }

    fn put_route(&mut self, slot: RouteSlot, route: Option<ActiveRoute>)
        ensures
            final(self).route_at(slot) == route,
            *final(self) == (Controller { system: final(self).system, microphone: final(self).microphone, ..*old(self) }),
            slot is System ==> final(self).microphone == old(self).microphone,
            slot is Microphone ==> final(self).system == old(self).system,
    {
        match slot {
            RouteSlot::System => self.system = route,
            RouteSlot::Microphone => self.microphone = route,
        }
    }

    fn next_sequence(&mut self) -> (r: u64)
        ensures
            r == next_token(old(self).sequence),
            *final(self) == (Controller { sequence: r, ..*old(self) }),
    {
        self.sequence = wrapping_next(self.sequence);
        self.sequence
    }

    fn set_notice(&mut self, code: Option<&str>, message: String)
        ensures
            final(self).notice is Some,
            final(self).notice->0.message@ == message@,
            final(self).notice->0.id == next_token(old(self).sequence),
            final(self).notice->0.code is Some <==> code is Some,
            code matches Some(c) ==> final(self).notice->0.code matches Some(x) && x@ == c@,
            *final(self) == (Controller { sequence: next_token(old(self).sequence), notice: final(self).notice, ..*old(self) }),
    {
        let id = self.next_sequence();
        let code = match code {
            Some(c) => Some(to_owned(c)),
            None => None,
        };
        self.notice = Some(ControllerNotice { id, code, message });
    }

    /// What the shell does when the controller first runs: the overlay comes back if it was
    /// showing at the last quit, and every surface gets a snapshot.
    pub fn startup(&mut self) -> (effects: Vec<Effect>)
        ensures
            old(self).config.overlay.enabled ==> final(self).overlay_visible,
            old(self).config@.overlay.enabled ==> extends(overlay_effects(true, old(self).config@.overlay), effects@),
            !old(self).config@.overlay.enabled ==> *final(self) == *old(self) && effects@ == seq![Effect::Publish],
            effects@.len() > 0,
            effects@.last() is Publish,
    {
        let mut effects: Vec<Effect> = Vec::new();
        if self.config.overlay.enabled {
            self.set_overlay_visible(true, false, &mut effects);
            let ghost shown = effects@;
            effects.push(Effect::Publish);
            proof {
                assert(Seq::<Effect>::empty() + overlay_effects(true, old(self).config@.overlay) =~= overlay_effects(
                    true,
                    old(self).config@.overlay,
                ));
                lemma_push_extends(shown, Effect::Publish);
                lemma_extends_trans(overlay_effects(true, old(self).config@.overlay), shown, effects@);
            }
        } else {
            effects.push(Effect::Publish);
            proof {
                assert(effects@ =~= seq![Effect::Publish]);
            }
        }
        effects
    }

    fn save_config(&mut self, then: AfterSave, effects: &mut Vec<Effect>)
        ensures
            final(effects)@.len() == old(effects)@.len() + 1,
            final(effects)@.last() matches Effect::SaveConfig { config, then: t } && t == then
                && saves(old(self).config@, config@),
            final(effects)@.drop_last() == old(effects)@,
            *final(self) == *old(self),
    {
        let saved = self.config.duplicate().normalized();
        effects.push(Effect::SaveConfig { config: saved, then });
        proof {
            assert(effects@.drop_last() =~= old(effects)@);
        }
    }

    /// A configuration write finished: a written configuration becomes the current one, a
    /// failed write leaves the current one and tells the user, and then whatever was waiting
    /// on the write runs.
    pub fn config_saved(&mut self, saved: AppConfig, result: Result<(), String>, then: AfterSave) -> (effects: Vec<Effect>)
        ensures
            result is Ok ==> final(self).config@ == saved@,
            result is Err ==> final(self).config@ == old(self).config@ && final(self).notice is Some
                && final(self).notice->0.message@ == result->Err_0@,
            then is Exit ==> effects@ == seq![Effect::Exit],
            then is Nothing ==> effects@.len() == 0,
            result is Ok && then is Reconfigure && follows_settings(old(self).translation_state) ==> reconfigured(
                Controller { config: saved, ..*old(self) },
                *final(self),
                RouteSlot::System,
            ) && reconfigured(Controller { config: saved, ..*old(self) }, *final(self), RouteSlot::Microphone),
            result is Ok && then is Reconfigure && !follows_settings(old(self).translation_state)
                ==> final(self).system == old(self).system && final(self).microphone == old(self).microphone,
    {
        match result {
            Ok(()) => self.config = saved,
            Err(error) => self.set_notice(None, error),
        }
        let mut effects: Vec<Effect> = Vec::new();
        match then {
            AfterSave::Nothing => {},
            AfterSave::Reconfigure => self.reconfigure_if_active(&mut effects),
            AfterSave::Exit => effects.push(Effect::Exit),
        }
        proof {
            if then is Exit {
                assert(effects@ =~= seq![Effect::Exit]);
            }
        }
        effects
    }

    /// A write the shell carried out failed; the user is told.
    pub fn report_error(&mut self, error: String) -> (effects: Vec<Effect>)
        ensures
            final(self).notice is Some,
            final(self).notice->0.message@ == error@,
            final(self).notice->0.code is None,
            effects@.len() == 1,
            effects@[0] is Publish,
    {
        self.set_notice(None, error);
        let mut effects: Vec<Effect> = Vec::new();
        effects.push(Effect::Publish);
        effects
    }

    fn set_overlay_visible(&mut self, visible: bool, persist: bool, effects: &mut Vec<Effect>)
        ensures
            final(self).overlay_visible == visible,
            final(self).config@ == with_overlay_enabled(old(self).config@, visible),
            final(self).translation_state == old(self).translation_state,
            final(self).system == old(self).system,
            final(self).microphone == old(self).microphone,
            final(self).notice == old(self).notice,
            final(self).sequence == old(self).sequence,
            final(self).journal == old(self).journal,
            final(self).session_generation == old(self).session_generation,
            extends(old(effects)@, final(effects)@),
            extends(old(effects)@ + overlay_effects(visible, old(self).config@.overlay), final(effects)@),
            final(effects)@.len() > 0 && final(effects)@.last() == Effect::Publish,
    {
        let ghost start = effects@;
        self.overlay_visible = visible;
        self.config.overlay.enabled = visible;
        effects.push(Effect::ShowOverlay { visible });
        effects.push(
            Effect::ApplyOverlayFlags {
                always_on_top: self.config.overlay.always_on_top,
                click_through: self.config.overlay.click_through && self.overlay_visible,
            },
        );
        let ghost shown = effects@;
        if persist {
            self.save_config(AfterSave::Nothing, effects);
        }
        let ghost saved = effects@;
        effects.push(Effect::Publish);
        proof {
            assert(shown.subrange(0, start.len() as int) =~= start);
            assert(saved.subrange(0, shown.len() as int) =~= shown);
            lemma_push_extends(saved, Effect::Publish);
            lemma_extends_trans(start, shown, saved);
            lemma_extends_trans(start, saved, effects@);
            assert(shown =~= start + overlay_effects(visible, old(self).config@.overlay));
            lemma_extends_trans(shown, saved, effects@);
        }
    }

    /// Runs one request from a surface. `credentials` is the key store as it stands now;
    /// a start is checked against it.
    pub fn handle_request(&mut self, request: ControllerRequest, credentials: &CredentialStore) -> (effects: Vec<Effect>)
        ensures
            request matches ControllerRequest::Translation { command } && command is Start ==> (
                started(*old(self), *credentials, *final(self), effects@)
                && (spec_is_active(old(self).translation_state) ==> *final(self) == *old(self))),
            request matches ControllerRequest::Translation { command } && command is Stop ==> (
                final(self).system is None && final(self).microphone is None
                && final(self).translation_state == TranslationState::Stopped
                && closes_routes(*old(self), effects@)),
            request matches ControllerRequest::Translation { command } && command is Pause ==> (if old(
                self,
            ).translation_state is Running {
                final(self).translation_state is Paused && final(self).system is None
                    && final(self).microphone is None && closes_routes(*old(self), effects@)
            } else {
                *final(self) == *old(self)
            }),
            request matches ControllerRequest::Translation { command } && command is Resume ==> (
                !(old(self).translation_state is Paused) ==> *final(self) == *old(self)),
            request matches ControllerRequest::Translation { command } && command is Resume ==> (
                old(self).translation_state is Paused ==> follows_settings(final(self).translation_state)
                && opened_enabled(*old(self), *final(self))
                && reopened_enabled(*old(self), *final(self), effects@)),
            request is ToggleTranslation ==> (if spec_is_active(old(self).translation_state) {
                final(self).system is None && final(self).microphone is None
                    && final(self).translation_state == TranslationState::Stopped
                    && closes_routes(*old(self), effects@)
            } else {
                started(*old(self), *credentials, *final(self), effects@)
            }),
            request is ToggleOverlay ==> final(self).overlay_visible == !old(self).overlay_visible
                && final(self).config@ == with_overlay_enabled(old(self).config@, !old(self).overlay_visible),
            request matches ControllerRequest::ShowOverlay { visible } ==> final(self).overlay_visible
                == visible && final(self).config@ == with_overlay_enabled(old(self).config@, visible),
            request is Hide ==> !final(self).overlay_visible && final(self).config@
                == with_overlay_enabled(old(self).config@, false),
            request matches ControllerRequest::Route { route_id, enabled } ==> (
                (!spec_may_switch(old(self).config@, route_id@, enabled) || spec_slot_of(route_id@) is None)
                    ==> *final(self) == *old(self)),
            request matches ControllerRequest::Route { route_id, enabled } ==> (spec_slot_of(route_id@) matches Some(
                slot,
            ) ==> (spec_may_switch(old(self).config@, route_id@, enabled) ==> final(self).config@
                == with_route_enabled(old(self).config@, slot, enabled))),
            request matches ControllerRequest::Locale { locale } ==> (if crate::config::spec_is_supported_locale(locale@) {
                final(self).config@ == (ConfigView { locale: locale@, ..old(self).config@ })
            } else {
                *final(self) == *old(self)
            }),
            request matches ControllerRequest::MicrophoneDevice { device } ==> final(self).config@ == (
            ConfigView {
                microphone_device: if device@.len() == 0 {
                    None
                } else {
                    Some(device@)
                },
                ..old(self).config@
            }),
            request matches ControllerRequest::Settings { patch } ==> final(self).config@ == (ConfigView {
                overlay: patched_overlay(
                    old(self).config@.overlay,
                    patch.always_on_top,
                    patch.click_through,
                    patch.show_original,
                    patch.show_translation,
                    opt_seq(patch.layout),
                ),
                ..old(self).config@
            }),
            request matches ControllerRequest::RouteSettings { route_id, patch } ==> (match spec_slot_of(route_id@) {
                Some(slot) => match patched_route(
                    slot_route(old(self).config@, slot),
                    opt_seq(patch.model),
                    opt_seq(patch.source_language),
                    opt_seq(patch.target_language),
                ) {
                    Some(r) => final(self).config@ == with_route(old(self).config@, slot, r),
                    None => final(self).config@ == old(self).config@ && effects@.len() == 0,
                },
                None => *final(self) == *old(self),
            }),
            request matches ControllerRequest::QwenSettings { patch } ==> (match patched_qwen(
                old(self).config@.qwen_region,
                old(self).config@.qwen_workspace_id,
                opt_seq(patch.region),
                opt_seq(patch.workspace_id),
            ) {
                Some((region, workspace)) => final(self).config@ == (ConfigView {
                    qwen_region: region,
                    qwen_workspace_id: workspace,
                    ..old(self).config@
                }),
                None => final(self).config@ == old(self).config@ && effects@.len() == 0,
            }),
            request matches ControllerRequest::Capture { bundle_id } ==> (match capture_target(
                bundle_id@,
                old(self).capture_applications@,
            ) {
                Some((scope, application)) => final(self).config@ == (ConfigView {
                    system_audio: crate::config::SystemAudioView {
                        scope,
                        application: match application {
                            Some((b, n)) => Some(crate::config::ApplicationView { bundle_id: b, name: n }),
                            None => None,
                        },
                    },
                    ..old(self).config@
                }),
                None => final(self).config@ == old(self).config@ && effects@.len() == 0,
            }),
            request matches ControllerRequest::RetryRoute { route_id } ==> (match spec_slot_of(route_id@) {
                Some(slot) => if retriable(*old(self), slot) {
                    final(self).route_at(slot) is Some && final(self).notice is None
                        && final(self).config@ == old(self).config@
                        && (slot_route(old(self).config@, slot).enabled ==> reopens(
                        effects@,
                        old(self).route_at(slot),
                        final(self).route_at(slot),
                        slot,
                        old(self).config@,
                    ))
                } else {
                    *final(self) == *old(self) && effects@.len() == 0
                },
                None => *final(self) == *old(self) && effects@.len() == 0,
            }),
            request is RequestCaptureOptions ==> (if old(self).capture_loading {
                *final(self) == *old(self) && effects@.len() == 0
            } else {
                final(self).capture_loading && effects@ == seq![Effect::Publish, Effect::LoadCaptureOptions]
            }),
            request is Exit ==> final(self).system is None && final(self).microphone is None
                && final(self).translation_state == TranslationState::Stopped
                && (effects@.last() matches Effect::SaveConfig { config, then } && then is Exit
                && saves(final(self).config@, config@)) && closes_routes(*old(self), effects@),
    {
        let mut effects: Vec<Effect> = Vec::new();
        match request {
            ControllerRequest::Translation { command } => match command {
                TranslationCommand::Start => self.start_translation(credentials, &mut effects),
                TranslationCommand::Stop => self.stop_translation(&mut effects),
                TranslationCommand::Pause => self.pause_translation(&mut effects),
                TranslationCommand::Resume => self.resume_translation(&mut effects),
            },
            ControllerRequest::ToggleTranslation => {
                if self.translation_state.is_active() {
                    self.stop_translation(&mut effects);
                } else {
                    self.start_translation(credentials, &mut effects);
                }
            },
            ControllerRequest::ToggleOverlay => {
                let visible = !self.overlay_visible;
                self.set_overlay_visible(visible, true, &mut effects);
            },
            ControllerRequest::ShowOverlay { visible } => self.set_overlay_visible(
                visible,
                true,
                &mut effects,
            ),
            ControllerRequest::Hide => self.set_overlay_visible(false, true, &mut effects),
            ControllerRequest::Settings { patch } => self.update_overlay_settings(patch, &mut effects),
            ControllerRequest::Route { route_id, enabled } => self.update_route_enabled(
                route_id.as_str(),
                enabled,
                &mut effects,
            ),
            ControllerRequest::RetryRoute { route_id } => {
                if let Some(slot) = slot_of(route_id.as_str()) {
                    self.retry_route(slot, &mut effects);
                }
            },
            ControllerRequest::RouteSettings { route_id, patch } => {
                if let Some(slot) = slot_of(route_id.as_str()) {
                    let applied = match slot {
                        RouteSlot::System => apply_route_settings(&mut self.config.routes.system, patch),
                        RouteSlot::Microphone => apply_route_settings(
                            &mut self.config.routes.microphone,
                            patch,
                        ),
                    };
                    if applied {
                        self.save_config(AfterSave::Reconfigure, &mut effects);
                        effects.push(Effect::Publish);
                    }
                }
            },
            ControllerRequest::QwenSettings { patch } => {
                if apply_qwen_settings(&mut self.config, patch) {
                    self.save_config(AfterSave::Reconfigure, &mut effects);
                    effects.push(Effect::Publish);
                }
            },
            ControllerRequest::Locale { locale } => {
                if crate::config::is_supported_locale(locale.as_str()) {
                    self.config.locale = locale;
                    self.save_config(AfterSave::Nothing, &mut effects);
                    effects.push(Effect::Publish);
                }
            },
            ControllerRequest::Capture { bundle_id } => {
                if apply_capture(&mut self.config, bundle_id.as_str(), &self.capture_applications) {
                    self.save_config(AfterSave::Reconfigure, &mut effects);
                    effects.push(Effect::Publish);
                }
            },
            ControllerRequest::MicrophoneDevice { device } => {
                self.config.audio.microphone.device = if device.as_str().is_empty() {
                    None
                } else {
                    Some(device)
                };
                self.save_config(AfterSave::Reconfigure, &mut effects);
                effects.push(Effect::Publish);
            },
            ControllerRequest::RequestCaptureOptions => {
                if !self.capture_loading {
                    self.capture_loading = true;
                    effects.push(Effect::Publish);
                    effects.push(Effect::LoadCaptureOptions);
                }
            },
            ControllerRequest::Exit => {
                self.stop_translation(&mut effects);
                let ghost stopped = effects@;
                self.save_config(AfterSave::Exit, &mut effects);
                proof {
                    assert(effects@.subrange(0, stopped.len() as int) =~= effects@.drop_last());
                    if let Some(r) = old(self).system {
                        lemma_emits_kept(stopped, effects@, route_teardown(RouteSlot::System, r));
                    }
                    if let Some(r) = old(self).microphone {
                        lemma_emits_kept(stopped, effects@, route_teardown(RouteSlot::Microphone, r));
                    }
                }
            },
        }
        effects
    }

    fn update_overlay_settings(&mut self, patch: OverlaySettingsPatch, effects: &mut Vec<Effect>)
        ensures
            final(self).config@ == (ConfigView {
                overlay: patched_overlay(
                    old(self).config@.overlay,
                    patch.always_on_top,
                    patch.click_through,
                    patch.show_original,
                    patch.show_translation,
                    opt_seq(patch.layout),
                ),
                ..old(self).config@
            }),
    {
        let flags = apply_overlay_patch(&mut self.config, patch);
        if flags {
            effects.push(
                Effect::ApplyOverlayFlags {
                    always_on_top: self.config.overlay.always_on_top,
                    click_through: self.config.overlay.click_through && self.overlay_visible,
                },
            );
        }
        self.save_config(AfterSave::Nothing, effects);
        effects.push(Effect::Publish);
    }

    fn update_route_enabled(&mut self, route_id: &str, enabled: bool, effects: &mut Vec<Effect>)
        ensures
            !spec_may_switch(old(self).config@, route_id@, enabled) ==> *final(self) == *old(self),
            spec_slot_of(route_id@) is None ==> *final(self) == *old(self),
            spec_slot_of(route_id@) matches Some(slot) ==> (spec_may_switch(old(self).config@, route_id@, enabled)
                ==> final(self).config@ == with_route_enabled(old(self).config@, slot, enabled)),
    {
        if !may_switch(&self.config, route_id, enabled) {
            return;
        }
        match slot_of(route_id) {
            Some(RouteSlot::System) => self.config.routes.system.enabled = enabled,
            Some(RouteSlot::Microphone) => self.config.routes.microphone.enabled = enabled,
            None => return,
        }
        self.save_config(AfterSave::Reconfigure, effects);
        effects.push(Effect::Publish);
    }

    /// The key store changed. A cleared key frees the routes on its translator, and the
    /// surfaces pick up the new set of usable translators.
    pub fn credentials_changed(&mut self, provider: &str, present: bool) -> (effects: Vec<Effect>)
        ensures
            present ==> final(self).config@ == old(self).config@,
            !present ==> final(self).config@.system_route == crate::config::dropped_route(
                old(self).config@.system_route,
                provider@,
            ),
            !present ==> final(self).config@.microphone_route == crate::config::dropped_route(
                old(self).config@.microphone_route,
                provider@,
            ),
            effects@.len() > 0,
            effects@.last() is Publish,
            ({
                let drops = !present && (old(self).config@.system_route.engine == provider@
                    || old(self).config@.microphone_route.engine == provider@);
                &&& drops ==> effects@.len() == 2 && (effects@[0] matches Effect::SaveConfig { config, then }
                    && then is Reconfigure && saves(final(self).config@, config@))
                &&& !drops ==> effects@ == seq![Effect::Publish] && final(self).config@ == old(self).config@
            }),
    {
        let mut effects: Vec<Effect> = Vec::new();
        if !present && self.config.drop_engine(provider) {
            self.save_config(AfterSave::Reconfigure, &mut effects);
        }
        effects.push(Effect::Publish);
        proof {
            if effects@.len() == 1 {
                assert(effects@ =~= seq![Effect::Publish]);
            }
        }
        effects
    }

    /// The capture option lists arrived, or failed to.
    pub fn capture_options_loaded(
        &mut self,
        result: Result<(Vec<CapturableApplication>, Vec<String>), String>,
    ) -> (effects: Vec<Effect>)
        ensures
            !final(self).capture_loading,
            effects@.len() == 1,
            effects@[0] is Publish,
            match result {
                Ok((applications, microphones)) => final(self).capture_applications == applications
                    && final(self).capture_microphones == microphones
                    && final(self).notice == old(self).notice,
                Err(error) => final(self).notice matches Some(n) && n.message@ == error@
                    && final(self).capture_applications == old(self).capture_applications
                    && final(self).capture_microphones == old(self).capture_microphones,
            },
            final(self).config@ == old(self).config@,
    {
        self.capture_loading = false;
        match result {
            Ok((applications, microphones)) => {
                self.capture_applications = applications;
                self.capture_microphones = microphones;
            },
            Err(error) => self.set_notice(None, error),
        }
        let mut effects: Vec<Effect> = Vec::new();
        effects.push(Effect::Publish);
        effects
    }

    fn start_translation(&mut self, credentials: &CredentialStore, effects: &mut Vec<Effect>)
        ensures
            spec_is_active(old(self).translation_state) ==> *final(self) == *old(self),
            started(*old(self), *credentials, *final(self), final(effects)@),
    {
        if self.translation_state.is_active() {
            return;
        }
        if let Some(code) = validate_start(&self.config, credentials) {
            self.set_notice(Some(code), String::new());
            effects.push(Effect::ShowSettings);
            effects.push(Effect::Publish);
            return;
        }
        // Whatever ran before ends here, failed or not, and its record is closed out on the
        // old clock before the new session resets it.
        let ghost start = effects@;
        self.stop_routes(effects);
        let ghost routes_closed = effects@;
        self.close_journal(effects);
        self.system_turns = Vec::new();
        self.microphone_turns = Vec::new();
        self.notice = None;
        self.translation_state = TranslationState::Starting;
        self.clock.start();
        self.journal = Some(Journal::new(&self.config));
        let ghost journal_closed = effects@;
        self.open_enabled_routes(effects);
        let ghost opened = effects@;
        let ghost opened_routes = *self;
        self.set_overlay_visible(true, true, effects);
        let ghost shown = effects@;
        effects.push(Effect::Publish);
        proof {
            lemma_push_extends(shown, Effect::Publish);
            lemma_extends_trans(routes_closed, journal_closed, opened);
            lemma_extends_trans(routes_closed, opened, shown);
            lemma_extends_trans(routes_closed, shown, effects@);
            lemma_extends_trans(opened, shown, effects@);
            if let Some(r) = old(self).system {
                lemma_emits_kept(routes_closed, effects@, route_teardown(RouteSlot::System, r));
            }
            if let Some(r) = old(self).microphone {
                lemma_emits_kept(routes_closed, effects@, route_teardown(RouteSlot::Microphone, r));
            }
            if slot_route(old(self).config@, RouteSlot::System).enabled {
                lemma_brings_up_kept(opened, effects@, RouteSlot::System, old(self).config@);
            }
            if slot_route(old(self).config@, RouteSlot::Microphone).enabled {
                lemma_brings_up_kept(opened, effects@, RouteSlot::Microphone, old(self).config@);
            }
        }
    }

    /// The only way a journal leaves the controller: whoever drops it stamps the duration
    /// first, so a record's total can never disagree with the times inside it.
    fn close_journal(&mut self, effects: &mut Vec<Effect>)
        ensures
            final(self).journal is None,
            final(self).translation_state == old(self).translation_state,
            final(self).system == old(self).system,
            final(self).microphone == old(self).microphone,
            final(self).config@ == old(self).config@,
            final(self).notice == old(self).notice,
            final(self).overlay_visible == old(self).overlay_visible,
            final(self).session_generation == old(self).session_generation,
            extends(old(effects)@, final(effects)@),
            old(self).journal matches Some(j) ==> (j.view().turns.len() > 0 ==> appended_one(
                old(effects)@,
                final(effects)@,
            ) && is_persist_of(final(effects)@.last(), j.view().id)),
            !(old(self).journal matches Some(j) && j.view().turns.len() > 0) ==> final(effects)@ == old(effects)@,
    {
        proof {
            lemma_extends_refl(effects@);
        }
        let elapsed = self.clock.elapsed();
        let mut journal = match self.journal.take() {
            Some(j) => j,
            None => return,
        };
        journal.finish(elapsed);
        if let Some((id, markdown, data)) = journal.record() {
            let ghost before = effects@;
            effects.push(Effect::PersistJournal { id, markdown, data });
            proof {
                assert(effects@.subrange(0, before.len() as int) =~= before);
            }
        }
    }

    fn stop_translation(&mut self, effects: &mut Vec<Effect>)
        ensures
            final(self).system is None,
            final(self).microphone is None,
            final(self).translation_state == (if old(self).translation_state is Stopped
                && old(self).system is None && old(self).microphone is None {
                old(self).translation_state
            } else {
                TranslationState::Stopped
            }),
            final(self).journal is None || *final(self) == *old(self),
            final(self).config@ == old(self).config@,
            final(self).notice == old(self).notice,
            final(self).overlay_visible == old(self).overlay_visible,
            extends(old(effects)@, final(effects)@),
            closes_routes(*old(self), final(effects)@),
            !(old(self).translation_state is Stopped && old(self).system is None && old(self).microphone is None)
                ==> (old(self).journal matches Some(j) ==> (j.view().turns.len() > 0 ==> persists_record(
                final(effects)@,
                j.view().id,
            ))) && final(effects)@.len() > 0 && final(effects)@.last() == Effect::Publish,
    {
        proof {
            lemma_extends_refl(effects@);
        }
        if self.translation_state == TranslationState::Stopped && self.system.is_none()
            && self.microphone.is_none() {
            return;
        }
        let ghost start = effects@;
        self.stop_routes(effects);
        let ghost routes_closed = effects@;
        let ghost held = self.journal;
        self.close_journal(effects);
        let ghost journal_closed = effects@;
        self.translation_state = TranslationState::Stopped;
        self.clock.reset();
        self.session_generation = wrapping_next(self.session_generation);
        self.system_turns = Vec::new();
        self.microphone_turns = Vec::new();
        effects.push(Effect::Publish);
        proof {
            assert(effects@.subrange(0, journal_closed.len() as int) =~= journal_closed);
            lemma_extends_trans(start, routes_closed, journal_closed);
            lemma_extends_trans(start, journal_closed, effects@);
            lemma_extends_trans(routes_closed, journal_closed, effects@);
            if let Some(r) = old(self).system {
                lemma_emits_kept(routes_closed, effects@, route_teardown(RouteSlot::System, r));
            }
            if let Some(r) = old(self).microphone {
                lemma_emits_kept(routes_closed, effects@, route_teardown(RouteSlot::Microphone, r));
            }
            if let Some(j) = old(self).journal {
                if j.view().turns.len() > 0 {
                    let k = journal_closed.len() - 1;
                    assert(is_persist_of(journal_closed[k], j.view().id));
                    assert(effects@[k] == effects@.subrange(0, journal_closed.len() as int)[k]);
                    assert(is_persist_of(effects@[k], j.view().id));
                }
            }
        }
    }

    fn pause_translation(&mut self, effects: &mut Vec<Effect>)
        ensures
            old(self).translation_state is Running ==> final(self).translation_state is Paused
                && final(self).system is None && final(self).microphone is None,
            !(old(self).translation_state is Running) ==> *final(self) == *old(self)
                && final(effects)@ == old(effects)@,
            old(self).translation_state is Running ==> closes_routes(*old(self), final(effects)@)
                && extends(old(effects)@, final(effects)@) && final(effects)@.len() > 0
                && final(effects)@.last() == Effect::Publish,
            final(self).config@ == old(self).config@,
            final(self).notice == old(self).notice,
            final(self).overlay_visible == old(self).overlay_visible,
    {
        if self.translation_state != TranslationState::Running {
            return;
        }
        self.clock.pause();
        self.session_generation = wrapping_next(self.session_generation);
        let ghost start = effects@;
        self.stop_routes(effects);
        let ghost routes_closed = effects@;
        self.translation_state = TranslationState::Paused;
        effects.push(Effect::Publish);
        proof {
            assert(effects@.subrange(0, routes_closed.len() as int) =~= routes_closed);
            lemma_extends_trans(start, routes_closed, effects@);
            if let Some(r) = old(self).system {
                lemma_emits_kept(routes_closed, effects@, route_teardown(RouteSlot::System, r));
            }
            if let Some(r) = old(self).microphone {
                lemma_emits_kept(routes_closed, effects@, route_teardown(RouteSlot::Microphone, r));
            }
        }
    }

    fn resume_translation(&mut self, effects: &mut Vec<Effect>)
        ensures
            !(old(self).translation_state is Paused) ==> *final(self) == *old(self)
                && final(effects)@ == old(effects)@,
            keeps_settings(*old(self), *final(self)),
            old(self).translation_state is Paused ==> follows_settings(final(self).translation_state)
                && final(self).session_generation == next_token(old(self).session_generation)
                && opened_enabled(*old(self), *final(self))
                && reopened_enabled(*old(self), *final(self), final(effects)@)
                && final(effects)@.len() > 0 && final(effects)@.last() == Effect::Publish,
    {
        if self.translation_state != TranslationState::Paused {
            return;
        }
        self.clock.resume();
        self.translation_state = TranslationState::Starting;
        self.open_enabled_routes(effects);
        let ghost opened = effects@;
        effects.push(Effect::Publish);
        proof {
            lemma_push_extends(opened, Effect::Publish);
            if slot_route(old(self).config@, RouteSlot::System).enabled {
                lemma_reopens_kept(opened, effects@, old(self).system, self.system, RouteSlot::System, old(self).config@);
            }
            if slot_route(old(self).config@, RouteSlot::Microphone).enabled {
                lemma_reopens_kept(opened, effects@, old(self).microphone, self.microphone, RouteSlot::Microphone, old(self).config@);
            }
        }
    }

    fn open_enabled_routes(&mut self, effects: &mut Vec<Effect>)
        ensures
            keeps_settings(*old(self), *final(self)),
            final(self).session_generation == next_token(old(self).session_generation),
            opened_enabled(*old(self), *final(self)),
            follows_settings(old(self).translation_state) ==> follows_settings(final(self).translation_state),
            final(effects)@.len() > 0,
            final(effects)@.last() == (Effect::ScheduleTick { generation: final(self).session_generation }),
            extends(old(effects)@, final(effects)@),
            old(self).system is None && old(self).microphone is None ==> opened_fresh(
                old(self).config@,
                *final(self),
                final(effects)@,
            ),
            old(self).system is None && old(self).microphone is None && old(self).translation_state is Starting
                ==> final(self).translation_state is Starting,
            reopened_enabled(*old(self), *final(self), final(effects)@),
    {
        let ghost start = effects@;
        proof {
            lemma_extends_refl(effects@);
        }
        self.session_generation = wrapping_next(self.session_generation);
        if self.config.routes.system.enabled {
            self.open_route(RouteSlot::System, effects);
        }
        let ghost middle = effects@;
        proof {
            if !self.config.routes.system.enabled {
                lemma_extends_refl(effects@);
            }
        }
        if self.config.routes.microphone.enabled {
            self.open_route(RouteSlot::Microphone, effects);
        }
        let ghost opened = effects@;
        proof {
            if !self.config.routes.microphone.enabled {
                lemma_extends_refl(effects@);
            }
            lemma_extends_trans(start, middle, opened);
            if old(self).system is None && slot_route(old(self).config@, RouteSlot::System).enabled {
                assert(brings_up(middle, RouteSlot::System, old(self).config@));
                lemma_brings_up_kept(middle, opened, RouteSlot::System, old(self).config@);
            }
            if old(self).microphone is None && slot_route(old(self).config@, RouteSlot::Microphone).enabled {
                assert(brings_up(opened, RouteSlot::Microphone, old(self).config@));
            }
            if slot_route(old(self).config@, RouteSlot::System).enabled {
                lemma_reopens_kept(middle, opened, old(self).system, self.system, RouteSlot::System, old(self).config@);
            }
        }
        effects.push(Effect::ScheduleTick { generation: self.session_generation });
        proof {
            lemma_push_extends(opened, Effect::ScheduleTick { generation: self.session_generation });
            lemma_extends_trans(start, opened, effects@);
            if old(self).system is None && slot_route(old(self).config@, RouteSlot::System).enabled {
                lemma_brings_up_kept(opened, effects@, RouteSlot::System, old(self).config@);
            }
            if old(self).microphone is None && slot_route(old(self).config@, RouteSlot::Microphone).enabled {
                lemma_brings_up_kept(opened, effects@, RouteSlot::Microphone, old(self).config@);
            }
            if slot_route(old(self).config@, RouteSlot::System).enabled {
                lemma_reopens_kept(opened, effects@, old(self).system, self.system, RouteSlot::System, old(self).config@);
            }
            if slot_route(old(self).config@, RouteSlot::Microphone).enabled {
                lemma_reopens_kept(opened, effects@, old(self).microphone, self.microphone, RouteSlot::Microphone, old(self).config@);
            }
        }
    }

    /// The elapsed-time readout's timer fired: while the session it was armed for is still
    /// timed, every surface is refreshed and the timer armed again.
    pub fn tick(&mut self, generation: u64) -> (effects: Vec<Effect>)
        ensures
            *final(self) == *old(self),
            (generation != old(self).session_generation || !crate::state::spec_is_timed(
                old(self).translation_state,
            )) ==> effects@.len() == 0,
            (generation == old(self).session_generation && crate::state::spec_is_timed(
                old(self).translation_state,
            )) ==> effects@ == seq![Effect::Publish, Effect::ScheduleTick { generation }],
    {
        let mut effects: Vec<Effect> = Vec::new();
        if generation != self.session_generation || !self.translation_state.is_timed() {
            return effects;
        }
        effects.push(Effect::Publish);
        effects.push(Effect::ScheduleTick { generation: self.session_generation });
        proof {
            assert(effects@ =~= seq![Effect::Publish, Effect::ScheduleTick { generation }]);
        }
        effects
    }

    fn stop_routes(&mut self, effects: &mut Vec<Effect>)
        ensures
            final(self).system is None,
            final(self).microphone is None,
            final(self).translation_state == old(self).translation_state,
            final(self).journal is Some <==> old(self).journal is Some,
            final(self).config@ == old(self).config@,
            final(self).notice == old(self).notice,
            final(self).overlay_visible == old(self).overlay_visible,
            final(self).session_generation == old(self).session_generation,
            extends(old(effects)@, final(effects)@),
            closes_routes(*old(self), final(effects)@),
            journal_grew(old(self).journal, final(self).journal),
    {
        let ghost start = effects@;
        self.stop_route(RouteSlot::System, effects);
        let ghost middle = effects@;
        self.stop_route(RouteSlot::Microphone, effects);
        proof {
            lemma_extends_trans(start, middle, effects@);
            if let Some(r) = old(self).system {
                lemma_emits_appended(start, route_teardown(RouteSlot::System, r), middle);
                lemma_emits_kept(middle, effects@, route_teardown(RouteSlot::System, r));
            }
            if let Some(r) = old(self).microphone {
                lemma_emits_appended(middle, route_teardown(RouteSlot::Microphone, r), effects@);
            }
        }
    }

    fn stop_route(&mut self, slot: RouteSlot, effects: &mut Vec<Effect>)
        ensures
            final(self).route_at(slot) is None,
            slot is System ==> final(self).microphone == old(self).microphone,
            slot is Microphone ==> final(self).system == old(self).system,
            final(self).translation_state == old(self).translation_state,
            final(self).journal is Some <==> old(self).journal is Some,
            final(self).config@ == old(self).config@,
            final(self).notice == old(self).notice,
            final(self).overlay_visible == old(self).overlay_visible,
            final(self).session_generation == old(self).session_generation,
            old(self).route_at(slot) matches Some(r) ==> extends(
                old(effects)@ + route_teardown(slot, r),
                final(effects)@,
            ),
            old(self).route_at(slot) is None ==> *final(self) == *old(self) && final(effects)@ == old(effects)@,
            extends(old(effects)@, final(effects)@),
            old(self).journal matches Some(j) ==> (final(self).journal matches Some(k) && k.view().id
                == j.view().id && k.view().turns.len() >= j.view().turns.len()),
    {
        proof {
            lemma_extends_refl(effects@);
        }
        let mut route = match self.take_route(slot) {
            Some(r) => r,
            None => return,
        };
        let ghost start = effects@;
        effects.push(Effect::StopCapture { slot });
        let handles = route.handles();
        let mut i: usize = 0;
        proof {
            assert(effects@ =~= start + seq![Effect::StopCapture { slot }] + stop_providers(handles@.take(0)));
        }
        while i < handles.len()
            invariant
                0 <= i <= handles@.len(),
                effects@ == start + seq![Effect::StopCapture { slot }] + stop_providers(handles@.take(i as int)),
            decreases handles@.len() - i,
        {
            effects.push(Effect::StopProvider { handle: handles[i] });
            proof {
                assert(handles@.take(i + 1) =~= handles@.take(i as int).push(handles@[i as int]));
                assert(stop_providers(handles@.take(i + 1)) =~= stop_providers(handles@.take(i as int)).push(
                    Effect::StopProvider { handle: handles@[i as int] },
                ));
            }
            i = i + 1;
        }
        effects.push(Effect::DetachBridge { slot });
        proof {
            assert(handles@.take(handles@.len() as int) =~= handles@);
            assert(effects@ =~= start + route_teardown(slot, old(self).route_at(slot)->0));
        }
        let ghost torn = effects@;
        let outputs = route.assembler.flush_all();
        self.record_turns(slot, outputs, effects);
        proof {
            lemma_emits_appended(start, route_teardown(slot, old(self).route_at(slot)->0), effects@);
            if let Some(j) = old(self).journal {
                lemma_journal_took_grows(j.view(), self.journal->0.view(), turn_views(outputs@));
            }
        }
    }

    /// Brings a route up, reusing whatever is already healthy: an existing capture stream is
    /// never restarted just because the provider session has to be rebuilt.
    fn open_route(&mut self, slot: RouteSlot, effects: &mut Vec<Effect>)
        ensures
            keeps_other(*old(self), *final(self), slot),
            keeps_settings(*old(self), *final(self)),
            (old(self).route_at(slot) is Some || slot_route(old(self).config@, slot).enabled)
                ==> final(self).route_at(slot) is Some,
            slot_route(old(self).config@, slot).enabled ==> (final(self).route_at(slot) matches Some(f)
                && f.config@ == slot_route(old(self).config@, slot) && keys_current(old(self).config@, slot, f)
                && f.error@.len() == 0),
            slot_route(old(self).config@, slot).enabled ==> final(effects)@.len() > 0
                && final(effects)@.last() == Effect::Publish,
            !slot_route(old(self).config@, slot).enabled ==> *final(self) == *old(self)
                && final(effects)@ == old(effects)@,
            final(self).session_generation == old(self).session_generation,
            follows_settings(old(self).translation_state) ==> follows_settings(final(self).translation_state),
            extends(old(effects)@, final(effects)@),
            old(self).route_at(slot) is None && slot_route(old(self).config@, slot).enabled ==> brought_up_at(
                final(effects)@,
                old(effects)@.len() as int,
                slot,
                old(self).config@,
            ) && (final(self).route_at(slot) matches Some(f) && f.state is Connecting),
            old(self).route_at(slot) is None && old(self).translation_state is Starting && all_dialling(*old(self))
                ==> final(self).translation_state is Starting && all_dialling(*final(self)),
            slot_route(old(self).config@, slot).enabled ==> reopens(
                final(effects)@,
                old(self).route_at(slot),
                final(self).route_at(slot),
                slot,
                old(self).config@,
            ),
    {
        proof {
            lemma_extends_refl(effects@);
        }
        let config = match slot {
            RouteSlot::System => self.config.routes.system.duplicate(),
            RouteSlot::Microphone => self.config.routes.microphone.duplicate(),
        };
        if !config.enabled {
            return;
        }
        let ghost start = effects@;
        let provider_key = ProviderKey::new(&self.config, &config);
        let capture_key = CaptureKey::new(&self.config, &config);
        let route = match self.take_route(slot) {
            Some(mut route) => {
                route.rekey(config, provider_key, capture_key);
                route.error = String::new();
                route
            },
            None => {
                effects.push(Effect::NewBridge { slot });
                ActiveRoute::new(slot_name(slot), config, provider_key, capture_key)
            },
        };
        let needs_capture = route.capture.is_none();
        let needs_provider = route.provider.is_none();
        self.put_route(slot, Some(route));
        let ghost after_bridge = effects@;
        proof {
            if old(self).route_at(slot) is Some {
                lemma_extends_refl(effects@);
            } else {
                lemma_push_extends(start, Effect::NewBridge { slot });
            }
        }
        let ghost sequence_before_capture = self.sequence;
        if needs_capture {
            self.start_capture(slot, effects);
        }
        let ghost after_capture = effects@;
        proof {
            if needs_capture {
                assert(after_capture.subrange(0, after_bridge.len() as int) =~= after_bridge);
            } else {
                lemma_extends_refl(effects@);
            }
            lemma_extends_trans(start, after_bridge, after_capture);
        }
        if needs_provider {
            self.start_provider(slot, false, effects);
        }
        let ghost after_provider = effects@;
        proof {
            if needs_provider {
                lemma_push_extends(after_capture, effects@.last());
                assert(after_capture.push(effects@.last()) =~= effects@);
            } else {
                lemma_extends_refl(effects@);
            }
            lemma_extends_trans(start, after_capture, after_provider);
        }
        self.refresh_route_state(slot);
        proof {
            if old(self).route_at(slot) is None && old(self).translation_state is Starting && all_dialling(*old(self)) {
                assert(all_dialling(*self));
                lemma_dialling_stays_starting(*self);
            }
        }
        self.sync_translation_state();
        effects.push(Effect::Publish);
        proof {
            lemma_push_extends(after_provider, Effect::Publish);
            lemma_extends_trans(start, after_provider, effects@);
            if old(self).route_at(slot) is None {
                let k = start.len() as int;
                assert(effects@[k] == after_bridge[k]);
                assert(effects@[k + 1] == after_capture[k + 1]);
                assert(effects@[k + 2] == after_provider[k + 2]);
                assert(brought_up_at(effects@, k, slot, old(self).config@));
            } else {
                let t = next_token(sequence_before_capture);
                if needs_capture {
                    let k1 = after_bridge.len() as int;
                    assert(is_capture_ask(after_capture[k1], slot, old(self).config@, t));
                    assert(after_provider[k1] == after_capture[k1]);
                    assert(effects@[k1] == after_provider[k1]);
                    assert(is_capture_ask(effects@[k1], slot, old(self).config@, t));
                    assert(self.route_at(slot)->0.capture == Some(t));
                }
                if needs_provider {
                    let k2 = after_capture.len() as int;
                    assert(is_provider_ask(after_provider[k2], slot));
                    assert(effects@[k2] == after_provider[k2]);
                    assert(is_provider_ask(effects@[k2], slot));
                }
            }
        }
    }

    /// The states of the open routes, system first.
    pub open spec fn route_states(&self) -> Seq<RouteState> {
        (match self.system {
            Some(r) => seq![r.state],
            None => Seq::empty(),
        }) + (match self.microphone {
            Some(r) => seq![r.state],
            None => Seq::empty(),
        })
    }

    fn route_states_vec(&self) -> (r: Vec<RouteState>)
        ensures
            r@ == self.route_states(),
    {
        let mut states: Vec<RouteState> = Vec::new();
        if let Some(route) = &self.system {
            states.push(route.state);
        }
        if let Some(route) = &self.microphone {
            states.push(route.state);
        }
        proof {
            assert(states@ =~= self.route_states());
        }
        states
    }

    /// Folds the routes into the session state, holding or carrying on the clock as the
    /// change asks.
    fn sync_translation_state(&mut self)
        ensures
            final(self).translation_state == crate::state::spec_aggregated(
                old(self).translation_state,
                old(self).route_states(),
            ),
            final(self).system == old(self).system,
            final(self).microphone == old(self).microphone,
            final(self).config@ == old(self).config@,
            final(self).notice == old(self).notice,
            final(self).sequence == old(self).sequence,
            final(self).journal == old(self).journal,
            final(self).overlay_visible == old(self).overlay_visible,
            final(self).session_generation == old(self).session_generation,
            follows_settings(old(self).translation_state) ==> follows_settings(final(self).translation_state),
    {
        let states = self.route_states_vec();
        let next = self.translation_state.aggregated(states.as_slice());
        match self.translation_state.clock_change(next) {
            ClockChange::Hold => self.clock.pause(),
            ClockChange::Continue => self.clock.resume(),
            ClockChange::Untouched => {},
        }
        self.translation_state = next;
    }

    fn refresh_route_state(&mut self, slot: RouteSlot)
        ensures
            match old(self).route_at(slot) {
                Some(r) => final(self).route_at(slot) matches Some(f) && (f.state, f.reconfiguring)
                    == crate::route::refreshed(r.state, r.provider, r.capture_ready, r.reconfiguring, r.reconnect_attempt)
                    && f.provider == r.provider && f.pending == r.pending
                    && f.reconnect_attempt == r.reconnect_attempt && f.capture == r.capture
                    && f.capture_ready == r.capture_ready && f.retry == r.retry && f.error@ == r.error@
                    && f.assembler.view() == r.assembler.view() && same_keys(r, f),
                None => final(self).route_at(slot) is None,
            },
            slot is System ==> final(self).microphone == old(self).microphone,
            slot is Microphone ==> final(self).system == old(self).system,
            final(self).translation_state == old(self).translation_state,
            final(self).config@ == old(self).config@,
            final(self).notice == old(self).notice,
            final(self).sequence == old(self).sequence,
            final(self).journal == old(self).journal,
            final(self).overlay_visible == old(self).overlay_visible,
            final(self).session_generation == old(self).session_generation,
    {
        if let Some(mut route) = self.take_route(slot) {
            route.refresh_state();
            self.put_route(slot, Some(route));
        }
    }

    fn start_capture(&mut self, slot: RouteSlot, effects: &mut Vec<Effect>)
        ensures
            keeps_other(*old(self), *final(self), slot),
            keeps_settings(*old(self), *final(self)),
            final(self).translation_state == old(self).translation_state,
            final(self).route_at(slot) is Some <==> old(self).route_at(slot) is Some,
            old(self).route_at(slot) matches Some(r) ==> (final(self).route_at(slot) matches Some(f)
                && same_keys(r, f) && f.capture is Some && f.error@ == r.error@),
            final(self).session_generation == old(self).session_generation,
            old(self).route_at(slot) matches Some(r) ==> (final(self).route_at(slot) matches Some(f)
                && f.capture == Some(next_token(old(self).sequence)) && !f.capture_ready
                && f.provider == r.provider && f.pending == r.pending && f.state == r.state
                && f.retry == r.retry && f.reconnect_attempt == r.reconnect_attempt
                && f.reconfiguring == r.reconfiguring),
            old(self).route_at(slot) is Some ==> final(self).sequence == next_token(old(self).sequence)
                && appended_one(old(effects)@, final(effects)@)
                && (final(effects)@.last() matches Effect::StartCapture { slot: s, token, request }
                && s == slot && token == next_token(old(self).sequence)
                && requests_capture(request, old(self).config@, slot)),
            old(self).route_at(slot) is None ==> *final(self) == *old(self) && final(effects)@ == old(effects)@,
    {
        let request = match slot {
            RouteSlot::Microphone => CaptureRequest::Microphone {
                device: match &self.config.audio.microphone.device {
                    Some(d) => Some(d.clone()),
                    None => None,
                },
            },
            RouteSlot::System => CaptureRequest::System {
                application_bundle_id: self.captured_application(),
            },
        };
        let mut route = match self.take_route(slot) {
            Some(r) => r,
            None => return,
        };
        let token = self.next_sequence();
        route.capture = Some(token);
        route.capture_ready = false;
        self.put_route(slot, Some(route));
        let ghost before = effects@;
        proof {
            assert(requests_capture(request, old(self).config@, slot));
        }
        effects.push(Effect::StartCapture { slot, token, request });
        proof {
            assert(effects@.subrange(0, before.len() as int) =~= before);
        }
    }

    /// The bundle identifier system audio is scoped to, or `None` for everything.
    fn captured_application(&self) -> (r: Option<String>)
        ensures
            crate::route::opt_string(r) == (if self.config@.system_audio.scope == "application"@ {
                match self.config@.system_audio.application {
                    Some(a) => Some(a.bundle_id),
                    None => None,
                }
            } else {
                None
            }),
    {
        proof {
            reveal_strlit("application");
        }
        if str_eq(self.config.audio.system.scope.as_str(), "application") {
            match &self.config.audio.system.application {
                Some(application) => Some(application.bundle_id.clone()),
                None => None,
            }
        } else {
            None
        }
    }

    fn stop_capture(&mut self, slot: RouteSlot, effects: &mut Vec<Effect>)
        ensures
            match old(self).route_at(slot) {
                Some(r) => final(self).route_at(slot) matches Some(f) && f.capture is None
                    && !f.capture_ready && f.provider == r.provider && f.pending == r.pending
                    && f.state == r.state && f.reconnect_attempt == r.reconnect_attempt
                    && f.retry == r.retry && f.reconfiguring == r.reconfiguring && f.error@ == r.error@
                    && same_keys(r, f),
                None => final(self).route_at(slot) is None,
            },
            slot is System ==> final(self).microphone == old(self).microphone,
            slot is Microphone ==> final(self).system == old(self).system,
            final(self).translation_state == old(self).translation_state,
            final(self).notice == old(self).notice,
            final(self).sequence == old(self).sequence,
            final(self).config@ == old(self).config@,
            final(effects)@ == old(effects)@.push(Effect::StopCapture { slot }),
    {
        effects.push(Effect::StopCapture { slot });
        if let Some(mut route) = self.take_route(slot) {
            route.capture = None;
            route.capture_ready = false;
            self.put_route(slot, Some(route));
        }
    }

    /// `replace` dials a second session while the current one keeps producing transcripts,
    /// so a settings change costs no dead air (make-before-break).
    fn start_provider(&mut self, slot: RouteSlot, replace: bool, effects: &mut Vec<Effect>)
        ensures
            keeps_settings(*old(self), *final(self)),
            final(self).system == old(self).system,
            final(self).microphone == old(self).microphone,
            final(self).translation_state == old(self).translation_state,
            final(self).session_generation == old(self).session_generation,
            old(self).route_at(slot) is Some ==> *final(self) == (Controller {
                sequence: next_token(old(self).sequence),
                ..*old(self)
            }) && final(effects)@ == old(effects)@.push(
                (Effect::StartProvider { slot, token: next_token(old(self).sequence), replace }),
            ),
            old(self).route_at(slot) is None ==> *final(self) == *old(self) && final(effects)@ == old(effects)@,
    {
        if self.route_at_exec(slot) {
            let token = self.next_sequence();
            effects.push(Effect::StartProvider { slot, token, replace });
        }
    }

    fn route_at_exec(&self, slot: RouteSlot) -> (r: bool)
        ensures
            r == self.route_at(slot) is Some,
    {
        match slot {
            RouteSlot::System => self.system.is_some(),
            RouteSlot::Microphone => self.microphone.is_some(),
        }
    }

    /// A translator session was opened, or failed to open, for a `StartProvider`. An
    /// opened session takes the live slot, or the pending one when it replaces a running
    /// session; a failure drops any pending session and fails the route for good.
    pub fn provider_started(
        &mut self,
        slot: RouteSlot,
        token: u64,
        replace: bool,
        result: Result<u64, String>,
    ) -> (effects: Vec<Effect>)
        ensures
            old(self).route_at(slot) is None ==> *final(self) == *old(self) && effects@.len() == 0,
            old(self).route_at(slot) is Some && result is Ok && replace ==> (final(self).route_at(slot) matches Some(f)
                && f.pending == Some(Session { handle: result->Ok_0, token, ready: false })
                && f.provider == old(self).route_at(slot)->0.provider),
            old(self).route_at(slot) is Some && result is Ok && !replace ==> (final(self).route_at(slot) matches Some(f)
                && f.provider == Some(Session { handle: result->Ok_0, token, ready: false })),
            old(self).route_at(slot) is Some && result is Ok ==> refreshed_in(
                *final(self),
                slot,
                old(self).route_at(slot)->0.state,
                replace || old(self).route_at(slot)->0.reconfiguring,
                old(self).translation_state,
            ),
            old(self).route_at(slot) is Some && tears_down(old(self).translation_state) && result is Err
                ==> failed_for_good(*final(self), slot, result->Err_0@),
            old(self).route_at(slot) is Some && !tears_down(old(self).translation_state) && result is Err
                ==> (final(self).route_at(slot) matches Some(f) && f.pending is None),
    {
        let mut effects: Vec<Effect> = Vec::new();
        let mut route = match self.take_route(slot) {
            Some(r) => r,
            None => return effects,
        };
        match result {
            Ok(handle) => {
                let session = Session { handle, token, ready: false };
                if replace {
                    route.pending = Some(session);
                    route.reconfiguring = true;
                } else {
                    route.provider = Some(session);
                }
                self.put_route(slot, Some(route));
                self.refresh_route_state(slot);
                self.sync_translation_state();
                effects.push(Effect::Publish);
            },
            Err(error) => {
                route.pending = None;
                self.put_route(slot, Some(route));
                self.tear_down_route(slot, error, false, &mut effects);
            },
        }
        effects
    }

    /// A report from a translator session. A token that owns neither of the route's
    /// sessions belongs to one already replaced or torn down and is ignored.
    pub fn handle_provider_event(&mut self, slot: RouteSlot, token: u64, event: Event) -> (effects: Vec<Effect>)
        ensures
            stale_session(old(self).route_at(slot), token) ==> *final(self) == *old(self)
                && effects@.len() == 0,
            old(self).route_at(slot) is Some && session_token_is(old(self).route_at(slot)->0.provider, token)
                && !session_token_is(old(self).route_at(slot)->0.pending, token) && tears_down(
                old(self).translation_state,
            ) ==> match event@ {
                EventView::Error { message, retryable } => torn_down(*old(self), *final(self), slot, message, retryable)
                    && effects@ == failure_effects(
                    slot,
                    old(self).route_at(slot)->0,
                    spec_retrying(old(self).route_at(slot)->0.reconnect_attempt, retryable),
                    next_token(old(self).sequence),
                ),
                EventView::Closed(reason) => torn_down(*old(self), *final(self), slot, reason, true)
                    && effects@ == failure_effects(
                    slot,
                    old(self).route_at(slot)->0,
                    spec_retrying(old(self).route_at(slot)->0.reconnect_attempt, true),
                    next_token(old(self).sequence),
                ),
                EventView::Ready => (final(self).route_at(slot) matches Some(f) && f.provider == Some(
                    Session { ready: true, ..old(self).route_at(slot)->0.provider->0 },
                ) && f.error@.len() == 0) && refreshed_in(
                    *final(self),
                    slot,
                    old(self).route_at(slot)->0.state,
                    old(self).route_at(slot)->0.reconfiguring,
                    old(self).translation_state,
                ),
                EventView::Fragment { kind, text, final_fragment } => final(self).route_at(slot) matches Some(f)
                    && f.reconnect_attempt == 0 && took_in(
                    old(self).route_at(slot)->0,
                    f,
                    old(self).turns_at(slot),
                    final(self).turns_at(slot),
                    kind,
                    text,
                    final_fragment,
                ),
            },
            old(self).route_at(slot) is Some && session_token_is(old(self).route_at(slot)->0.pending, token)
                && event@ is Ready ==> (final(self).route_at(slot) matches Some(f) && f.provider == Some(
                Session { ready: true, token, ..old(self).route_at(slot)->0.pending->0 },
            ) && f.pending is None) && refreshed_in(
                *final(self),
                slot,
                old(self).route_at(slot)->0.state,
                false,
                old(self).translation_state,
            ),
    {
        let mut effects: Vec<Effect> = Vec::new();
        let (owns, pending) = match slot {
            RouteSlot::System => match &self.system {
                Some(route) => (route.owns(token), route.owns_pending(token)),
                None => (false, false),
            },
            RouteSlot::Microphone => match &self.microphone {
                Some(route) => (route.owns(token), route.owns_pending(token)),
                None => (false, false),
            },
        };
        match event_route(owns, pending, &event) {
            EventRoute::Ignore => {},
            EventRoute::PromotePending => self.promote_pending(slot, token, &mut effects),
            EventRoute::Ready => self.provider_ready(slot, &mut effects),
            EventRoute::Fragment => match event {
                Event::Fragment { kind, text, final_fragment } => self.push_fragment(
                    slot,
                    token,
                    kind,
                    text,
                    final_fragment,
                    &mut effects,
                ),
                _ => {},
            },
            EventRoute::FailPending => {
                let message = match event {
                    Event::Error { message, .. } => message,
                    Event::Closed(reason) => reason,
                    _ => String::new(),
                };
                self.fail_pending(slot, token, message, &mut effects);
            },
            EventRoute::Fail { retryable } => {
                let message = match event {
                    Event::Error { message, .. } => message,
                    Event::Closed(reason) => reason,
                    _ => String::new(),
                };
                self.tear_down_route(slot, message, retryable, &mut effects);
            },
        }
        effects
    }

    fn provider_ready(&mut self, slot: RouteSlot, effects: &mut Vec<Effect>)
        ensures
            old(self).route_at(slot) matches Some(r) ==> (final(self).route_at(slot) matches Some(f)
                && (r.provider matches Some(p) ==> f.provider == Some(Session { ready: true, ..p })
                && f.error@.len() == 0)),
            old(self).route_at(slot) matches Some(r) ==> (r.provider is Some ==> refreshed_in(
                *final(self),
                slot,
                r.state,
                r.reconfiguring,
                old(self).translation_state,
            )),
    {
        let mut route = match self.take_route(slot) {
            Some(r) => r,
            None => return,
        };
        let handle = route.provider_ready();
        self.put_route(slot, Some(route));
        if let Some(handle) = handle {
            effects.push(Effect::AttachBridge { slot, handle });
            self.refresh_route_state(slot);
            self.sync_translation_state();
            effects.push(Effect::Publish);
        }
    }

    fn promote_pending(&mut self, slot: RouteSlot, token: u64, effects: &mut Vec<Effect>)
        ensures
            old(self).route_at(slot) matches Some(r) ==> (final(self).route_at(slot) matches Some(f) && (
                r.pending matches Some(q) ==> f.provider == Some(Session { ready: true, token, ..q })
                && f.pending is None)),
            old(self).route_at(slot) matches Some(r) ==> (r.pending is Some ==> refreshed_in(
                *final(self),
                slot,
                r.state,
                false,
                old(self).translation_state,
            )),
    {
        let mut route = match self.take_route(slot) {
            Some(r) => r,
            None => return,
        };
        let promoted = route.promote_pending(slot_name(slot), token);
        self.put_route(slot, Some(route));
        if let Some((session, retired, outputs)) = promoted {
            effects.push(Effect::AttachBridge { slot, handle: session.handle });
            if let Some(retired) = retired {
                effects.push(Effect::StopProvider { handle: retired.handle });
            }
            self.record_turns(slot, outputs, effects);
            self.refresh_route_state(slot);
            self.sync_translation_state();
            effects.push(Effect::Publish);
        }
    }

    /// The replacement session never came up: it is dropped and the route failed, so the
    /// normal backoff rebuilds it with the current settings.
    fn fail_pending(&mut self, slot: RouteSlot, token: u64, error: String, effects: &mut Vec<Effect>)
        ensures
            !owns_pending_session(*old(self), slot, token) ==> *final(self) == *old(self)
                && final(effects)@ == old(effects)@,
            owns_pending_session(*old(self), slot, token) ==> (final(self).route_at(slot) matches Some(f)
                && f.pending is None && !f.reconfiguring),
            owns_pending_session(*old(self), slot, token) && tears_down(old(self).translation_state)
                ==> torn_down(*old(self), *final(self), slot, error@, true),
            owns_pending_session(*old(self), slot, token) && !tears_down(old(self).translation_state)
                ==> final(self).route_at(slot) == Some(
                (ActiveRoute { pending: None, reconfiguring: false, ..old(self).route_at(slot)->0 }),
            ),
    {
        let mut route = match self.take_route(slot) {
            Some(r) => r,
            None => return,
        };
        if !route.owns_pending(token) {
            self.put_route(slot, Some(route));
            return;
        }
        let pending = route.pending;
        route.pending = None;
        route.reconfiguring = false;
        self.put_route(slot, Some(route));
        if let Some(session) = pending {
            effects.push(Effect::StopProvider { handle: session.handle });
        }
        self.tear_down_route(slot, error, true, effects);
    }

    /// Drops every session on the route and either schedules a retry or gives up. The
    /// capture stream stays up while a retry is due, so a reconnect costs only the
    /// websocket handshake. A stopped or paused session has nothing to tear down.
    fn tear_down_route(&mut self, slot: RouteSlot, error: String, retryable: bool, effects: &mut Vec<Effect>)
        ensures
            (old(self).translation_state is Stopped || old(self).translation_state is Paused
                || old(self).route_at(slot) is None) ==> *final(self) == *old(self),
            !(old(self).translation_state is Stopped || old(self).translation_state is Paused)
                && old(self).route_at(slot) is Some ==> (final(self).route_at(slot) matches Some(f) && f.provider is None
                && f.pending is None && !f.reconfiguring && f.error@ == error@ && (
                if spec_retrying(old(self).route_at(slot)->0.reconnect_attempt, retryable) {
                    f.state is Reconnecting && f.reconnect_attempt == old(self).route_at(slot)->0.reconnect_attempt + 1
                        && f.retry == Some(next_token(old(self).sequence))
                        && f.capture == old(self).route_at(slot)->0.capture
                } else {
                    f.state is Failed && f.capture is None && f.reconnect_attempt == old(self).route_at(slot)->0.reconnect_attempt
                })),
            tears_down(old(self).translation_state) && old(self).route_at(slot) is Some && !spec_retrying(
                old(self).route_at(slot)->0.reconnect_attempt,
                retryable,
            ) ==> (final(self).notice matches Some(n) && n.message@ == error@),
            tears_down(old(self).translation_state) && old(self).route_at(slot) is Some && spec_retrying(
                old(self).route_at(slot)->0.reconnect_attempt,
                retryable,
            ) ==> final(self).notice == old(self).notice,
            !tears_down(old(self).translation_state) || old(self).route_at(slot) is None ==> final(effects)@
                == old(effects)@,
            tears_down(old(self).translation_state) && old(self).route_at(slot) is Some ==> final(effects)@
                == old(effects)@ + failure_effects(
                slot,
                old(self).route_at(slot)->0,
                spec_retrying(old(self).route_at(slot)->0.reconnect_attempt, retryable),
                next_token(old(self).sequence),
            ),
    {
        match self.translation_state {
            TranslationState::Stopped | TranslationState::Paused => return,
            _ => {},
        }
        let mut route = match self.take_route(slot) {
            Some(r) => r,
            None => return,
        };
        let (retired, retrying) = route.tear_down(error.clone(), retryable);
        let ghost start = effects@;
        effects.push(Effect::DetachBridge { slot });
        let mut i: usize = 0;
        proof {
            assert(effects@ =~= start + seq![Effect::DetachBridge { slot }] + stop_providers(retired@.take(0)));
        }
        while i < retired.len()
            invariant
                0 <= i <= retired@.len(),
                effects@ == start + seq![Effect::DetachBridge { slot }] + stop_providers(retired@.take(i as int)),
            decreases retired@.len() - i,
        {
            effects.push(Effect::StopProvider { handle: retired[i] });
            proof {
                assert(retired@.take(i + 1) =~= retired@.take(i as int).push(retired@[i as int]));
                assert(stop_providers(retired@.take(i + 1)) =~= stop_providers(retired@.take(i as int)).push(
                    Effect::StopProvider { handle: retired@[i as int] },
                ));
            }
            i = i + 1;
        }
        proof {
            assert(retired@.take(retired@.len() as int) =~= retired@);
        }
        let ghost stopped = effects@;
        if retrying {
            let retry = self.next_sequence();
            route.retry = Some(retry);
            self.put_route(slot, Some(route));
            effects.push(Effect::ScheduleReconnect { slot, retry });
        } else {
            self.put_route(slot, Some(route));
            self.stop_capture(slot, effects);
            self.set_notice(None, error);
        }
        self.sync_translation_state();
        effects.push(Effect::Publish);
        proof {
            assert(effects@ =~= start + failure_effects(
                slot,
                old(self).route_at(slot)->0,
                spec_retrying(old(self).route_at(slot)->0.reconnect_attempt, retryable),
                next_token(old(self).sequence),
            ));
        }
    }

    /// A capture stream started, or failed to, for a `StartCapture`. A report for a stream
    /// the route no longer waits on is ignored.
    pub fn capture_started(&mut self, slot: RouteSlot, token: u64, result: Result<(), String>) -> (effects: Vec<Effect>)
        ensures
            !(old(self).route_at(slot) matches Some(r) && r.capture == Some(token)) ==> *final(self) == *old(self)
                && effects@.len() == 0,
            (old(self).route_at(slot) matches Some(r) && r.capture == Some(token)) && result is Ok
                ==> (final(self).route_at(slot) matches Some(f) && f.capture_ready),
            (old(self).route_at(slot) matches Some(r) && r.capture == Some(token)) && result is Ok
                ==> refreshed_in(
                *final(self),
                slot,
                old(self).route_at(slot)->0.state,
                old(self).route_at(slot)->0.reconfiguring,
                old(self).translation_state,
            ),
            (old(self).route_at(slot) matches Some(r) && r.capture == Some(token)) && result is Err
                && tears_down(old(self).translation_state) ==> failed_for_good(*final(self), slot, result->Err_0@),
    {
        let mut effects: Vec<Effect> = Vec::new();
        let mut route = match self.take_route(slot) {
            Some(r) => r,
            None => return effects,
        };
        if route.capture != Some(token) {
            self.put_route(slot, Some(route));
            return effects;
        }
        match result {
            Ok(()) => {
                route.capture_ready = true;
                self.put_route(slot, Some(route));
                self.refresh_route_state(slot);
                self.sync_translation_state();
                effects.push(Effect::Publish);
            },
            Err(error) => {
                route.capture = None;
                self.put_route(slot, Some(route));
                self.tear_down_route(slot, error, false, &mut effects);
            },
        }
        effects
    }

    /// A running capture stream died. Retryable: a capture that dies mid-session is
    /// usually a device changing mode or owner, which a rebuild fixes; a device that is
    /// genuinely gone fails the rebuild itself, and that path is what gives up.
    pub fn fail_capture(&mut self, slot: RouteSlot, token: u64, error: String) -> (effects: Vec<Effect>)
        ensures
            !(old(self).route_at(slot) matches Some(r) && r.capture == Some(token)) ==> *final(self) == *old(self)
                && effects@.len() == 0,
            (old(self).route_at(slot) matches Some(r) && r.capture == Some(token)) && tears_down(
                old(self).translation_state,
            ) ==> (final(self).route_at(slot) matches Some(f) && f.provider is None && f.pending is None
                && f.capture is None && f.error@ == error@ && if spec_retrying(
                old(self).route_at(slot)->0.reconnect_attempt,
                true,
            ) {
                f.state is Reconnecting && f.retry == Some(next_token(old(self).sequence))
            } else {
                f.state is Failed
            }),
    {
        let mut effects: Vec<Effect> = Vec::new();
        let current = match slot {
            RouteSlot::System => match &self.system {
                Some(r) => r.capture,
                None => None,
            },
            RouteSlot::Microphone => match &self.microphone {
                Some(r) => r.capture,
                None => None,
            },
        };
        if current != Some(token) {
            return effects;
        }
        self.stop_capture(slot, &mut effects);
        self.tear_down_route(slot, error, true, &mut effects);
        effects
    }

    /// The user asking again after the automatic attempts ran out: the budget is cleared so
    /// a blip that outlasted them can still recover without restarting the session.
    fn retry_route(&mut self, slot: RouteSlot, effects: &mut Vec<Effect>)
        ensures
            !retriable(*old(self), slot) ==> *final(self) == *old(self) && final(effects)@ == old(effects)@,
            retriable(*old(self), slot) ==> final(self).route_at(slot) is Some && final(self).notice is None
                && final(self).config@ == old(self).config@ && final(self).journal == old(self).journal,
            retriable(*old(self), slot) && slot_route(old(self).config@, slot).enabled ==> reopens(
                final(effects)@,
                old(self).route_at(slot),
                final(self).route_at(slot),
                slot,
                old(self).config@,
            ),
    {
        if !self.translation_state.is_active() {
            return;
        }
        let mut route = match self.take_route(slot) {
            Some(r) => r,
            None => return,
        };
        if route.state != RouteState::Failed {
            self.put_route(slot, Some(route));
            return;
        }
        route.reconnect_attempt = 0;
        route.state = RouteState::Connecting;
        self.put_route(slot, Some(route));
        self.notice = None;
        self.open_route(slot, effects);
    }

    /// A scheduled reconnect fired; only the retry the route still waits on brings it back.
    pub fn reconnect(&mut self, slot: RouteSlot, retry: u64) -> (effects: Vec<Effect>)
        ensures
            !(old(self).route_at(slot) matches Some(r) && r.retry == Some(retry)) ==> *final(self) == *old(self)
                && effects@.len() == 0,
            (old(self).route_at(slot) matches Some(r) && r.retry == Some(retry)) ==> keeps_settings(
                *old(self),
                *final(self),
            ) && final(self).route_at(slot) is Some,
            (old(self).route_at(slot) matches Some(r) && r.retry == Some(retry)) && slot_route(
                old(self).config@,
                slot,
            ).enabled ==> (final(self).route_at(slot) matches Some(f) && f.config@ == slot_route(
                old(self).config@,
                slot,
            ) && keys_current(old(self).config@, slot, f) && f.error@.len() == 0) && effects@.len() > 0
                && effects@.last() == Effect::Publish && reopens(
                effects@,
                old(self).route_at(slot),
                final(self).route_at(slot),
                slot,
                old(self).config@,
            ),
            (old(self).route_at(slot) matches Some(r) && r.retry == Some(retry)) && !slot_route(
                old(self).config@,
                slot,
            ).enabled ==> *final(self) == *old(self) && effects@.len() == 0,
    {
        let mut effects: Vec<Effect> = Vec::new();
        let due = match slot {
            RouteSlot::System => match &self.system {
                Some(r) => r.retry == Some(retry),
                None => false,
            },
            RouteSlot::Microphone => match &self.microphone {
                Some(r) => r.retry == Some(retry),
                None => false,
            },
        };
        if due {
            self.open_route(slot, &mut effects);
        }
        effects
    }

    fn push_fragment(
        &mut self,
        slot: RouteSlot,
        token: u64,
        kind: FragmentKind,
        text: String,
        final_fragment: bool,
        effects: &mut Vec<Effect>,
    )
        ensures
            old(self).route_at(slot) matches Some(r) ==> (final(self).route_at(slot) matches Some(f)
                && f.reconnect_attempt == 0 && f.provider == r.provider && took_in(
                r,
                f,
                old(self).turns_at(slot),
                final(self).turns_at(slot),
                kind,
                text@,
                final_fragment,
            )),
    {
        let mut route = match self.take_route(slot) {
            Some(r) => r,
            None => return,
        };
        route.mark_working();
        let ghost before = route.assembler.view();
        let ghost fragment = text@;
        let (outputs, flush_version) = route.assembler.push(kind, text, final_fragment);
        self.put_route(slot, Some(route));
        if let Some(version) = flush_version {
            effects.push(Effect::ScheduleFlush { slot, token, version });
        }
        let ghost turns = outputs@;
        self.record_turns(slot, outputs, effects);
        effects.push(Effect::Publish);
        proof {
            assert(pushed(
                before,
                kind,
                fragment,
                final_fragment,
                self.route_at(slot)->0.assembler.view(),
                turns,
                flush_version,
            ));
        }
    }

    /// A scheduled flush fired: what waits for its counterpart is closed out, if the
    /// session that scheduled it still owns the route and nothing newer arrived.
    pub fn flush_route(&mut self, slot: RouteSlot, token: u64, version: u64) -> (effects: Vec<Effect>)
        ensures
            effects@.len() > 0,
            effects@.last() is Publish,
            !(old(self).route_at(slot) matches Some(r) && session_token_is(r.provider, token)) ==> (*final(self)
                == *old(self) && effects@ == seq![Effect::Publish]),
            old(self).route_at(slot) is Some && session_token_is(old(self).route_at(slot)->0.provider, token)
                ==> final(self).route_at(slot) is Some && (if version == old(self).route_at(
                slot,
            )->0.assembler.view().flush_version {
                exists|turns: Seq<TranscriptTurn>|
                    #[trigger] flushed(
                        old(self).route_at(slot)->0.assembler.view(),
                        final(self).route_at(slot)->0.assembler.view(),
                        turns,
                    ) && turn_views(final(self).turns_at(slot)) == turn_views(old(self).turns_at(slot))
                        + turn_views(turns)
            } else {
                final(self).route_at(slot)->0.assembler.view() == old(self).route_at(slot)->0.assembler.view()
                    && turn_views(final(self).turns_at(slot)) == turn_views(old(self).turns_at(slot))
            }),
    {
        let mut effects: Vec<Effect> = Vec::new();
        let owned = match slot {
            RouteSlot::System => match &self.system {
                Some(route) => route.owns(token),
                None => false,
            },
            RouteSlot::Microphone => match &self.microphone {
                Some(route) => route.owns(token),
                None => false,
            },
        };
        if owned {
            if let Some(mut route) = self.take_route(slot) {
                let ghost before = route.assembler.view();
                let outputs = route.assembler.flush(version);
                self.put_route(slot, Some(route));
                let ghost turns = outputs@;
                self.record_turns(slot, outputs, &mut effects);
                proof {
                    assert(before == old(self).route_at(slot)->0.assembler.view());
                    assert(self.route_at(slot) is Some);
                    if version == before.flush_version {
                        assert(flushed(before, self.route_at(slot)->0.assembler.view(), turns));
                    } else {
                        assert(turn_views(turns) =~= Seq::empty());
                        assert(turn_views(old(self).turns_at(slot)) + turn_views(turns) =~= turn_views(
                            old(self).turns_at(slot),
                        ));
                    }
                }
            }
        }
        effects.push(Effect::Publish);
        proof {
            if !owned {
                assert(effects@ =~= seq![Effect::Publish]);
            }
        }
        effects
    }

    /// Keeps finished turns for the surfaces and in the journal, which is written after
    /// every turn.
    fn record_turns(&mut self, slot: RouteSlot, outputs: Vec<TranscriptTurn>, effects: &mut Vec<Effect>)
        ensures
            final(self).system == old(self).system,
            final(self).microphone == old(self).microphone,
            final(self).translation_state == old(self).translation_state,
            final(self).journal is Some <==> old(self).journal is Some,
            final(self).config@ == old(self).config@,
            final(self).notice == old(self).notice,
            final(self).sequence == old(self).sequence,
            final(self).overlay_visible == old(self).overlay_visible,
            turn_views(final(self).turns_at(slot)) == turn_views(old(self).turns_at(slot)) + turn_views(outputs@),
            slot is System ==> final(self).microphone_turns@ == old(self).microphone_turns@,
            slot is Microphone ==> final(self).system_turns@ == old(self).system_turns@,
            old(self).journal matches Some(j) ==> (final(self).journal matches Some(k)
                && journal_took(j.view(), k.view(), turn_views(outputs@))),
            extends(old(effects)@, final(effects)@),
            final(self).session_generation == old(self).session_generation,
    {
        let mut i: usize = 0;
        proof {
            lemma_extends_refl(effects@);
            assert(outputs@.take(0) =~= Seq::<TranscriptTurn>::empty());
            if let Some(j) = old(self).journal {
                assert(recorded_turns(j.view().turns) + turn_views(outputs@.take(0)) =~= recorded_turns(
                    j.view().turns,
                ));
            }
            assert(turn_views(old(self).turns_at(slot)) + turn_views(outputs@.take(0)) =~= turn_views(
                old(self).turns_at(slot),
            ));
        }
        while i < outputs.len()
            invariant
                0 <= i <= outputs@.len(),
                turn_views(self.turns_at(slot)) == turn_views(old(self).turns_at(slot)) + turn_views(
                    outputs@.take(i as int),
                ),
                slot is System ==> self.microphone_turns@ == old(self).microphone_turns@,
                slot is Microphone ==> self.system_turns@ == old(self).system_turns@,
                self.system == old(self).system,
                self.microphone == old(self).microphone,
                self.translation_state == old(self).translation_state,
                self.journal is Some <==> old(self).journal is Some,
                self.config@ == old(self).config@,
                self.notice == old(self).notice,
                self.sequence == old(self).sequence,
                self.overlay_visible == old(self).overlay_visible,
                old(self).journal matches Some(j) ==> (self.journal matches Some(k)
                    && journal_took(j.view(), k.view(), turn_views(outputs@.take(i as int)))),
                extends(old(effects)@, effects@),
                self.session_generation == old(self).session_generation,
            decreases outputs@.len() - i,
        {
            let turn = &outputs[i];
            let ghost before = self.turns_at(slot);
            match slot {
                RouteSlot::System => self.system_turns.push(turn.duplicate()),
                RouteSlot::Microphone => self.microphone_turns.push(turn.duplicate()),
            }
            proof {
                assert(turn_views(self.turns_at(slot)) =~= turn_views(before).push(outputs@[i as int]@));
                assert(outputs@.take(i + 1) =~= outputs@.take(i as int).push(outputs@[i as int]));
                assert(turn_views(outputs@.take(i + 1)) =~= turn_views(outputs@.take(i as int)).push(
                    outputs@[i as int]@,
                ));
            }
            let elapsed = self.clock.elapsed();
            if let Some(mut journal) = self.journal.take() {
                let ghost held = journal.view();
                journal.add(turn.duplicate(), elapsed);
                proof {
                    assert(recorded_turns(journal.view().turns) =~= recorded_turns(held.turns).push(
                        outputs@[i as int]@,
                    ));
                }
                if let Some((id, markdown, data)) = journal.record() {
                    let ghost before = effects@;
                    effects.push(Effect::PersistJournal { id, markdown, data });
                    proof {
                        assert(effects@.subrange(0, before.len() as int) =~= before);
                        lemma_extends_trans(old(effects)@, before, effects@);
                    }
                }
                self.journal = Some(journal);
            }
            i = i + 1;
        }
        proof {
            assert(outputs@.take(outputs@.len() as int) =~= outputs@);
        }
    }

    /// Applies a settings change to the running session route by route. Only what actually
    /// changed is rebuilt: an untouched route keeps its websocket and capture stream.
    fn reconfigure_if_active(&mut self, effects: &mut Vec<Effect>)
        ensures
            final(self).config@ == old(self).config@,
            final(self).notice == old(self).notice,
            follows_settings(old(self).translation_state) ==> reconfigured(*old(self), *final(self), RouteSlot::System)
                && reconfigured(*old(self), *final(self), RouteSlot::Microphone),
            !follows_settings(old(self).translation_state) ==> *final(self) == *old(self),
    {
        match self.translation_state {
            TranslationState::Starting | TranslationState::Running | TranslationState::Failed => {},
            _ => return,
        }
        self.reconfigure_route(RouteSlot::System, effects);
        self.reconfigure_route(RouteSlot::Microphone, effects);
        self.sync_translation_state();
    }

    fn reconfigure_route(&mut self, slot: RouteSlot, effects: &mut Vec<Effect>)
        ensures
            keeps_other(*old(self), *final(self), slot),
            final(self).config@ == old(self).config@,
            final(self).notice == old(self).notice,
            reconfigured(*old(self), *final(self), slot),
    {
        let (enabled, config_error) = {
            let route = match slot {
                RouteSlot::System => &self.config.routes.system,
                RouteSlot::Microphone => &self.config.routes.microphone,
            };
            (
                route.enabled,
                route_config_error(
                    route.model.as_str(),
                    route.source_language.as_str(),
                    route.target_language.as_str(),
                ).is_some(),
            )
        };
        let running = self.route_at_exec(slot);
        match route_plan(enabled, config_error, running) {
            RoutePlan::Stop => self.stop_route(slot, effects),
            RoutePlan::Keep => {},
            RoutePlan::Refresh => self.refresh_route(slot, effects),
            RoutePlan::Open => self.open_route(slot, effects),
        }
    }

    fn refresh_route(&mut self, slot: RouteSlot, effects: &mut Vec<Effect>)
        ensures
            keeps_other(*old(self), *final(self), slot),
            final(self).config@ == old(self).config@,
            final(self).notice == old(self).notice,
            old(self).route_at(slot) matches Some(r) && !(r.state is Failed) && keys_current(
                old(self).config@,
                slot,
                r,
            ) ==> *final(self) == *old(self) && final(effects)@ == old(effects)@,
            old(self).route_at(slot) matches Some(r) && !(r.state is Failed) && !keys_current(
                old(self).config@,
                slot,
                r,
            ) ==> (final(self).route_at(slot) matches Some(f) && f.config@ == slot_route(old(self).config@, slot)
                && keys_current(old(self).config@, slot, f)),
            old(self).route_at(slot) matches Some(r) && r.state is Failed && slot_route(old(self).config@, slot).enabled
                ==> (final(self).route_at(slot) matches Some(f) && keys_current(old(self).config@, slot, f)),
    {
        let config = match slot {
            RouteSlot::System => self.config.routes.system.duplicate(),
            RouteSlot::Microphone => self.config.routes.microphone.duplicate(),
        };
        let provider_key = ProviderKey::new(&self.config, &config);
        let capture_key = CaptureKey::new(&self.config, &config);
        let mut route = match self.take_route(slot) {
            Some(r) => r,
            None => return,
        };
        if route.state == RouteState::Failed {
            route.reconnect_attempt = 0;
            route.state = RouteState::Connecting;
            self.put_route(slot, Some(route));
            self.open_route(slot, effects);
            return;
        }
        let provider_changed = !route.provider_key.matches(&provider_key);
        let capture_changed = !route.capture_key.matches(&capture_key);
        if !provider_changed && !capture_changed {
            self.put_route(slot, Some(route));
            return;
        }
        let live = route.state == RouteState::Live;
        route.rekey(config, provider_key, capture_key);
        route.reconfiguring = live;
        self.put_route(slot, Some(route));
        if capture_changed {
            self.stop_capture(slot, effects);
            self.start_capture(slot, effects);
        }
        if provider_changed {
            self.swap_provider(slot, effects);
        }
        self.refresh_route_state(slot);
        effects.push(Effect::Publish);
    }

    /// Only a session that is actually producing transcripts is worth keeping alive during
    /// the handover; a half-open one is cheaper to discard.
    fn swap_provider(&mut self, slot: RouteSlot, effects: &mut Vec<Effect>)
        ensures
            keeps_other(*old(self), *final(self), slot),
            final(self).config@ == old(self).config@,
            final(self).notice == old(self).notice,
            old(self).route_at(slot) matches Some(r) ==> (final(self).route_at(slot) matches Some(f)
                && same_keys(r, f) && f.pending is None),
    {
        let mut route = match self.take_route(slot) {
            Some(r) => r,
            None => return,
        };
        let handover = route.is_ready();
        let pending = route.pending;
        route.pending = None;
        if let Some(session) = pending {
            effects.push(Effect::StopProvider { handle: session.handle });
        }
        if !handover {
            let live = route.provider;
            route.provider = None;
            effects.push(Effect::DetachBridge { slot });
            if let Some(session) = live {
                effects.push(Effect::StopProvider { handle: session.handle });
            }
        }
        self.put_route(slot, Some(route));
        self.start_provider(slot, handover, effects);
    }

    /// How the tray shows the session.
    pub fn tray_presentation(&self) -> (r: TrayPresentation)
        ensures
            r.translation_active == spec_is_active(self.translation_state),
            r.translation_running == (self.translation_state is Running),
            r.overlay_visible == self.overlay_visible,
            self.config@.locale != "auto"@ ==> r.locale@ == self.config@.locale,
            self.config@.locale == "auto"@ ==> crate::config::is_concrete_locale(r.locale@),
    {
        TrayPresentation {
            locale: crate::config::resolve_locale(self.config.locale.as_str()),
            translation_active: self.translation_state.is_active(),
            translation_running: self.translation_state.is_translating(),
            overlay_visible: self.overlay_visible,
        }
    }

    fn route_snapshot(&self, slot: RouteSlot) -> (r: RouteSnapshot)
        ensures
            shows_route(*self, slot, r),
    {
        let (config, turns) = match slot {
            RouteSlot::System => (self.config.routes.system.duplicate(), &self.system_turns),
            RouteSlot::Microphone => (self.config.routes.microphone.duplicate(), &self.microphone_turns),
        };
        let visible = latest_turns(turns);
        let route = match slot {
            RouteSlot::System => &self.system,
            RouteSlot::Microphone => &self.microphone,
        };
        let (state, error, draft) = match route {
            Some(active) => (active.state, active.error.clone(), active.assembler.draft()),
            None => (RouteState::Stopped, String::new(), TranscriptDraft::new()),
        };
        RouteSnapshot { route_id: to_owned(slot_name(slot)), config, state, error, turns: visible, draft }
    }

    /// Everything the surfaces show. `credentials` is the key store's status per provider.
    pub fn snapshot(&self, credentials: Vec<(String, bool)>) -> (r: ControllerSnapshot)
        ensures
            r.translation_state == self.translation_state,
            r.overlay_visible == self.overlay_visible,
            r.capture_loading == self.capture_loading,
            r.preferred_locale@ == self.config.locale@,
            r.routes@.len() == 2,
            shows_route(*self, RouteSlot::System, r.routes@[0]),
            shows_route(*self, RouteSlot::Microphone, r.routes@[1]),
            r.credentials == credentials,
            self.config@.locale != "auto"@ ==> r.locale@ == self.config@.locale,
            self.config@.locale == "auto"@ ==> crate::config::is_concrete_locale(r.locale@),
            r.overlay@ == self.config@.overlay,
            r.qwen.region@ == self.config@.qwen_region,
            r.qwen.workspace_id@ == self.config@.qwen_workspace_id,
            r.audio.system@ == self.config@.system_audio,
            opt_view(r.audio.microphone.device) == self.config@.microphone_device,
            r.applications@.len() == self.capture_applications@.len(),
            forall|i: int|
                0 <= i < r.applications@.len() ==> #[trigger] r.applications@[i].bundle_id@
                    == self.capture_applications@[i].bundle_id@ && r.applications@[i].name@
                    == self.capture_applications@[i].name@,
            r.microphones@.len() == self.capture_microphones@.len(),
            forall|j: int|
                0 <= j < r.microphones@.len() ==> #[trigger] r.microphones@[j]@ == self.capture_microphones@[j]@,
            r.notice is Some <==> self.notice is Some,
            self.notice matches Some(n) ==> r.notice->0.id == n.id && r.notice->0.message@ == n.message@
                && opt_view(r.notice->0.code) == opt_view(n.code),
    {
        let config = self.config.duplicate();
        let mut routes: Vec<RouteSnapshot> = Vec::new();
        routes.push(self.route_snapshot(RouteSlot::System));
        routes.push(self.route_snapshot(RouteSlot::Microphone));
        let mut applications: Vec<CapturableApplication> = Vec::new();
        let mut i: usize = 0;
        while i < self.capture_applications.len()
            invariant
                0 <= i <= self.capture_applications@.len(),
                applications@.len() == i,
                forall|k: int|
                    0 <= k < i ==> #[trigger] applications@[k].bundle_id@
                        == self.capture_applications@[k].bundle_id@ && applications@[k].name@
                        == self.capture_applications@[k].name@,
            decreases self.capture_applications@.len() - i,
        {
            applications.push(
                CapturableApplication {
                    bundle_id: self.capture_applications[i].bundle_id.clone(),
                    name: self.capture_applications[i].name.clone(),
                },
            );
            i = i + 1;
        }
        let mut microphones: Vec<String> = Vec::new();
        let mut j: usize = 0;
        while j < self.capture_microphones.len()
            invariant
                0 <= j <= self.capture_microphones@.len(),
                microphones@.len() == j,
                forall|k: int| 0 <= k < j ==> #[trigger] microphones@[k]@ == self.capture_microphones@[k]@,
            decreases self.capture_microphones@.len() - j,
        {
            microphones.push(self.capture_microphones[j].clone());
            j = j + 1;
        }
        let notice = match &self.notice {
            Some(n) => Some(
                ControllerNotice {
                    id: n.id,
                    code: match &n.code {
                        Some(c) => Some(c.clone()),
                        None => None,
                    },
                    message: n.message.clone(),
                },
            ),
            None => None,
        };
        ControllerSnapshot {
            locale: crate::config::resolve_locale(self.config.locale.as_str()),
            preferred_locale: self.config.locale.clone(),
            translation_state: self.translation_state,
            elapsed_seconds: self.clock.elapsed() / 1000,
            overlay_visible: self.overlay_visible,
            overlay: config.overlay,
            audio: config.audio,
            qwen: config.qwen,
            applications,
            microphones,
            capture_loading: self.capture_loading,
            credentials,
            routes,
            notice,
        }
    }
}

/// A settings change rebuilds only what it touched: a running route whose settings and
/// keys still match keeps its sessions and capture stream as they were, and a route whose
/// new settings are half-edited keeps whatever it had.
pub proof fn law_untouched_routes_keep_their_sessions(before: Controller, after: Controller, slot: RouteSlot)
    requires
        reconfigured(before, after, slot),
    ensures
        plan_for(before, slot) is Refresh && !(before.route_at(slot)->0.state is Failed) && keys_current(
            before.config@,
            slot,
            before.route_at(slot)->0,
        ) ==> after.route_at(slot) == before.route_at(slot),
        plan_for(before, slot) is Keep ==> after.route_at(slot) == before.route_at(slot),
        plan_for(before, slot) is Stop ==> after.route_at(slot) is None,
{
}

/// The latest turns a surface shows: the last `VISIBLE_TURNS`, oldest first.
pub fn latest_turns(turns: &Vec<TranscriptTurn>) -> (r: Vec<TranscriptTurn>)
    ensures
        crate::transcript::turn_views(r@) == crate::transcript::turn_views(turns@).skip(
            if turns@.len() > VISIBLE_TURNS {
                turns@.len() - VISIBLE_TURNS
            } else {
                0
            },
        ),
{
    let start: usize = if turns.len() > VISIBLE_TURNS {
        turns.len() - VISIBLE_TURNS
    } else {
        0
    };
    let mut out: Vec<TranscriptTurn> = Vec::new();
    let mut i: usize = start;
    while i < turns.len()
        invariant
            start <= i <= turns@.len(),
            crate::transcript::turn_views(out@) == crate::transcript::turn_views(turns@).subrange(
                start as int,
                i as int,
            ),
        decreases turns@.len() - i,
    {
        let ghost before = out@;
        out.push(turns[i].duplicate());
        proof {
            assert(crate::transcript::turn_views(out@) =~= crate::transcript::turn_views(before).push(
                turns@[i as int]@,
            ));
            assert(crate::transcript::turn_views(out@) =~= crate::transcript::turn_views(turns@).subrange(
                start as int,
                i + 1,
            ));
        }
        i = i + 1;
    }
    proof {
        assert(crate::transcript::turn_views(turns@).subrange(start as int, turns@.len() as int)
            =~= crate::transcript::turn_views(turns@).skip(start as int));
    }
    out
}

} // verus!
