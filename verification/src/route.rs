//! One route's bookkeeping while a session runs: what forces its provider or its capture
//! stream to be rebuilt, which sessions it owns, the label it shows, and the audio it holds
//! back while no provider is attached.

use crate::config::{AppConfig, RouteConfig, RouteView};
use crate::state::RouteState;
use crate::text::str_eq;
use crate::transcript::{TranscriptTurn, TurnAssembler};
use crate::translators::{settings_fingerprint, spec_settings_fingerprint};
use crate::config::ConfigView;
use std::collections::VecDeque;
use vstd::prelude::*;

verus! {

broadcast use vstd::std_specs::vecdeque::group_vec_dequeue_axioms;

/// Ten seconds of 16 kHz mono PCM16: enough to bridge a reconnect without unbounded growth.
pub const BACKLOG_LIMIT_BYTES: usize = 320_000;

/// Everything that forces a provider session to be rebuilt. Anything else can be applied
/// without touching the websocket.
#[derive(Clone, Debug, PartialEq, Eq)]
pub struct ProviderKey {
    engine: String,
    model: String,
    source_language: String,
    target_language: String,
    /// The provider's own settings, opaque here so adding a provider never widens this key.
    settings: String,
}

pub struct ProviderKeyView {
    pub engine: Seq<char>,
    pub model: Seq<char>,
    pub source_language: Seq<char>,
    pub target_language: Seq<char>,
    pub settings: Seq<char>,
}

impl View for ProviderKey {
    type V = ProviderKeyView;

    closed spec fn view(&self) -> ProviderKeyView {
        ProviderKeyView {
            engine: self.engine@,
            model: self.model@,
            source_language: self.source_language@,
            target_language: self.target_language@,
            settings: self.settings@,
        }
    }
}

/// The provider key a route gets under a configuration.
pub open spec fn spec_provider_key(c: ConfigView, route: RouteView) -> ProviderKeyView {
    ProviderKeyView {
        engine: route.engine,
        model: route.model,
        source_language: route.source_language,
        target_language: route.target_language,
        settings: spec_settings_fingerprint(route.engine, c),
    }
}

impl ProviderKey {
    pub fn new(config: &AppConfig, route: &RouteConfig) -> (r: Self)
        ensures
            r@ == spec_provider_key(config@, route@),
    {
        ProviderKey {
            engine: route.engine.clone(),
            model: route.model.clone(),
            source_language: route.source_language.clone(),
            target_language: route.target_language.clone(),
            settings: settings_fingerprint(route.engine.as_str(), config),
        }
    }

    /// Whether two keys ask for the same session.
    pub fn matches(&self, other: &Self) -> (r: bool)
        ensures
            r == (self@ == other@),
    {
        str_eq(self.engine.as_str(), other.engine.as_str()) && str_eq(
            self.model.as_str(),
            other.model.as_str(),
        ) && str_eq(self.source_language.as_str(), other.source_language.as_str()) && str_eq(
            self.target_language.as_str(),
            other.target_language.as_str(),
        ) && str_eq(self.settings.as_str(), other.settings.as_str())
    }
}

/// Everything that forces the OS capture stream to be rebuilt.
#[derive(Clone, Debug, PartialEq, Eq)]
pub struct CaptureKey {
    input: String,
    application: Option<String>,
    microphone_device: Option<String>,
}

pub struct CaptureKeyView {
    pub input: Seq<char>,
    pub application: Option<Seq<char>>,
    pub microphone_device: Option<Seq<char>>,
}

pub open spec fn opt_string(o: Option<String>) -> Option<Seq<char>> {
    match o {
        Some(s) => Some(s@),
        None => None,
    }
}

impl View for CaptureKey {
    type V = CaptureKeyView;

    closed spec fn view(&self) -> CaptureKeyView {
        CaptureKeyView {
            input: self.input@,
            application: opt_string(self.application),
            microphone_device: opt_string(self.microphone_device),
        }
    }
}

/// The capture key a route gets: only a system route captures one application, and only
/// the microphone route follows the chosen input device.
pub open spec fn spec_capture_key(c: ConfigView, route: RouteView) -> CaptureKeyView {
    CaptureKeyView {
        input: route.input,
        application: if route.input != "microphone"@ && c.system_audio.scope == "application"@ {
            match c.system_audio.application {
                Some(a) => Some(a.bundle_id),
                None => None,
            }
        } else {
            None
        },
        microphone_device: if route.input == "microphone"@ {
            c.microphone_device
        } else {
            None
        },
    }
}

fn opt_eq(a: &Option<String>, b: &Option<String>) -> (r: bool)
    ensures
        r == (opt_string(*a) == opt_string(*b)),
{
    match (a, b) {
        (Some(x), Some(y)) => str_eq(x.as_str(), y.as_str()),
        (None, None) => true,
        _ => false,
    }
}

impl CaptureKey {
    pub fn new(config: &AppConfig, route: &RouteConfig) -> (r: Self)
        ensures
            r@ == spec_capture_key(config@, route@),
    {
        let microphone = str_eq(route.input.as_str(), "microphone");
        let application = if !microphone && str_eq(
            config.audio.system.scope.as_str(),
            "application",
        ) {
            match &config.audio.system.application {
                Some(application) => Some(application.bundle_id.clone()),
                None => None,
            }
        } else {
            None
        };
        let microphone_device = if microphone {
            match &config.audio.microphone.device {
                Some(device) => Some(device.clone()),
                None => None,
            }
        } else {
            None
        };
        proof {
            reveal_strlit("microphone");
            reveal_strlit("application");
        }
        CaptureKey { input: route.input.clone(), application, microphone_device }
    }

    /// Whether two keys ask for the same capture stream.
    pub fn matches(&self, other: &Self) -> (r: bool)
        ensures
            r == (self@ == other@),
    {
        str_eq(self.input.as_str(), other.input.as_str()) && opt_eq(
            &self.application,
            &other.application,
        ) && opt_eq(&self.microphone_device, &other.microphone_device)
    }
}

/// A provider session a route holds: the handle the provider registry knows it by, the
/// token its events carry, and whether it has reported ready.
#[derive(Clone, Copy, Debug, PartialEq, Eq, Structural)]
pub struct Session {
    pub handle: u64,
    pub token: u64,
    pub ready: bool,
}

/// The total size of a backlog.
pub open spec fn total_bytes(chunks: Seq<Seq<u8>>) -> int
    decreases chunks.len(),
{
    if chunks.len() == 0 {
        0
    } else {
        total_bytes(chunks.drop_last()) + chunks.last().len()
    }
}

/// What a backlog keeps of its chunks: the oldest are dropped until the rest fits the limit.
pub open spec fn trimmed(chunks: Seq<Seq<u8>>) -> Seq<Seq<u8>>
    decreases chunks.len(),
{
    if chunks.len() == 0 || total_bytes(chunks) <= BACKLOG_LIMIT_BYTES {
        chunks
    } else {
        trimmed(chunks.drop_first())
    }
}

pub proof fn lemma_total_drop_first(chunks: Seq<Seq<u8>>)
    requires
        chunks.len() > 0,
    ensures
        total_bytes(chunks) == chunks[0].len() + total_bytes(chunks.drop_first()),
    decreases chunks.len(),
{
    if chunks.len() > 1 {
        lemma_total_drop_first(chunks.drop_last());
        assert(chunks.drop_last().drop_first() =~= chunks.drop_first().drop_last());
    } else {
        assert(chunks.drop_first() =~= Seq::<Seq<u8>>::empty());
        assert(chunks.drop_last() =~= Seq::<Seq<u8>>::empty());
    }
}

pub proof fn lemma_total_nonnegative(chunks: Seq<Seq<u8>>)
    ensures
        total_bytes(chunks) >= 0,
    decreases chunks.len(),
{
    if chunks.len() > 0 {
        lemma_total_nonnegative(chunks.drop_last());
    }
}

/// Whatever `trimmed` keeps fits the limit and is a tail of what it was given.
pub proof fn lemma_trimmed_fits(chunks: Seq<Seq<u8>>)
    ensures
        total_bytes(trimmed(chunks)) <= BACKLOG_LIMIT_BYTES,
        exists|k: int| 0 <= k <= chunks.len() && trimmed(chunks) == chunks.skip(k),
    decreases chunks.len(),
{
    if chunks.len() == 0 || total_bytes(chunks) <= BACKLOG_LIMIT_BYTES {
        assert(chunks.skip(0) =~= chunks);
        if chunks.len() == 0 {
            assert(total_bytes(chunks) == 0);
        }
    } else {
        lemma_trimmed_fits(chunks.drop_first());
        let k = choose|k: int|
            0 <= k <= chunks.drop_first().len() && trimmed(chunks.drop_first())
                == chunks.drop_first().skip(k);
        assert(chunks.drop_first().skip(k) =~= chunks.skip(k + 1));
    }
}

/// `kept` is the longest tail of `chunks` that fits the backlog limit: it fits, and each
/// longer tail does not.
pub open spec fn newest_within_limit(chunks: Seq<Seq<u8>>, kept: Seq<Seq<u8>>) -> bool {
    &&& total_bytes(kept) <= BACKLOG_LIMIT_BYTES
    &&& exists|k: int| 0 <= k <= chunks.len() && kept == chunks.skip(k)
        && forall|j: int| 0 <= j < k ==> total_bytes(#[trigger] chunks.skip(j)) > BACKLOG_LIMIT_BYTES
}

/// The backlog keeps the newest audio within its limit: what it holds after a trim is the
/// longest run of the most recent chunks that fits.
pub proof fn law_backlog_keeps_the_newest_audio_within_the_limit(chunks: Seq<Seq<u8>>)
    ensures
        newest_within_limit(chunks, trimmed(chunks)),
    decreases chunks.len(),
{
    lemma_trimmed_fits(chunks);
    if chunks.len() == 0 || total_bytes(chunks) <= BACKLOG_LIMIT_BYTES {
        assert(trimmed(chunks) == chunks.skip(0));
    } else {
        let rest = chunks.drop_first();
        law_backlog_keeps_the_newest_audio_within_the_limit(rest);
        let k = choose|k: int| 0 <= k <= rest.len() && trimmed(rest) == rest.skip(k)
            && forall|j: int| 0 <= j < k ==> total_bytes(#[trigger] rest.skip(j)) > BACKLOG_LIMIT_BYTES;
        assert(rest.skip(k) =~= chunks.skip(k + 1));
        assert forall|j: int| 0 <= j < k + 1 implies total_bytes(#[trigger] chunks.skip(j)) > BACKLOG_LIMIT_BYTES by {
            if j == 0 {
                assert(chunks.skip(0) =~= chunks);
            } else {
                assert(chunks.skip(j) =~= rest.skip(j - 1));
            }
        }
        assert(trimmed(chunks) == chunks.skip(k + 1));
    }
}

pub open spec fn chunk_views(chunks: Seq<Vec<u8>>) -> Seq<Seq<u8>> {
    chunks.map_values(|v: Vec<u8>| v@)
}

/// Decouples the capture stream from the provider session: audio captured while no
/// provider is attached is held back and replayed once one is, so swapping translators or
/// reconnecting never restarts the OS capture.
pub struct AudioBridge {
    provider: Option<u64>,
    backlog: VecDeque<Vec<u8>>,
    backlog_bytes: usize,
}

pub struct BridgeView {
    pub provider: Option<u64>,
    pub backlog: Seq<Seq<u8>>,
}

impl AudioBridge {
    pub closed spec fn view(&self) -> BridgeView {
        BridgeView { provider: self.provider, backlog: chunk_views(self.backlog@) }
    }

    /// The byte count matches the backlog, and the backlog fits the limit.
    pub closed spec fn wf(&self) -> bool {
        &&& self.backlog_bytes == total_bytes(chunk_views(self.backlog@))
        &&& self.backlog_bytes <= BACKLOG_LIMIT_BYTES
    }

    pub fn new() -> (r: Self)
        ensures
            r.wf(),
            r.view().provider is None,
            r.view().backlog.len() == 0,
    {
        let r = AudioBridge { provider: None, backlog: VecDeque::new(), backlog_bytes: 0 };
        assert(chunk_views(r.backlog@) =~= Seq::<Seq<u8>>::empty());
        r
    }

    /// Holds a chunk back, dropping the oldest audio until the backlog fits the limit.
    fn buffer(&mut self, audio: Vec<u8>)
        requires
            old(self).wf(),
        ensures
            final(self).wf(),
            final(self).view().provider == old(self).view().provider,
            final(self).view().backlog == trimmed(old(self).view().backlog.push(audio@)),
            newest_within_limit(old(self).view().backlog.push(audio@), final(self).view().backlog),
    {
        let ghost pushed = chunk_views(self.backlog@).push(audio@);
        proof {
            law_backlog_keeps_the_newest_audio_within_the_limit(pushed);
        }
        let len = audio.len();
        if len > BACKLOG_LIMIT_BYTES {
            // The new chunk alone overflows the limit, so nothing survives the trim.
            proof {
                lemma_trim_oversized(pushed, audio@);
            }
            self.backlog = VecDeque::new();
            self.backlog_bytes = 0;
            assert(chunk_views(self.backlog@) =~= Seq::<Seq<u8>>::empty());
            return;
        }
        self.backlog.push_back(audio);
        self.backlog_bytes = self.backlog_bytes + len;
        proof {
            assert(chunk_views(self.backlog@) =~= pushed);
            assert(pushed.drop_last() =~= chunk_views(old(self).backlog@));
        }
        while self.backlog_bytes > BACKLOG_LIMIT_BYTES
            invariant
                self.backlog_bytes == total_bytes(chunk_views(self.backlog@)),
                self.backlog_bytes <= 2 * BACKLOG_LIMIT_BYTES,
                trimmed(chunk_views(self.backlog@)) == trimmed(pushed),
                self.provider == old(self).provider,
            decreases self.backlog@.len(),
        {
            let ghost before = chunk_views(self.backlog@);
            proof {
                if self.backlog@.len() == 0 {
                    assert(total_bytes(before) == 0);
                }
            }
            let dropped = self.backlog.pop_front();
            match dropped {
                Some(chunk) => {
                    proof {
                        lemma_total_drop_first(before);
                        lemma_total_nonnegative(before.drop_first());
                        assert(chunk_views(self.backlog@) =~= before.drop_first());
                    }
                    self.backlog_bytes = self.backlog_bytes - chunk.len();
                },
                None => {
                    proof {
                        assert(false);
                    }
                },
            }
        }
        proof {
            let now = chunk_views(self.backlog@);
            assert(trimmed(now) == now);
        }
    }

    /// Hands a chunk to the attached provider, or holds it back while none is attached.
    /// `Some((handle, audio))` asks the caller to send the chunk to that provider now.
    pub fn push(&mut self, audio: Vec<u8>) -> (r: Option<(u64, Vec<u8>)>)
        requires
            old(self).wf(),
        ensures
            final(self).wf(),
            match old(self).view().provider {
                Some(handle) => {
                    &&& r == Some((handle, audio))
                    &&& final(self).view() == old(self).view()
                },
                None => {
                    &&& r is None
                    &&& final(self).view().provider is None
                    &&& final(self).view().backlog == trimmed(
                        old(self).view().backlog.push(audio@),
                    )
                    &&& newest_within_limit(old(self).view().backlog.push(audio@), final(self).view().backlog)
                },
            },
    {
        match self.provider {
            Some(handle) => Some((handle, audio)),
            None => {
                self.buffer(audio);
                None
            },
        }
    }

    /// Attaches a provider and hands back the held audio, oldest first, to be replayed to
    /// it. Replay stops at the first chunk the provider refuses; the rest is dropped.
    pub fn attach(&mut self, provider: u64) -> (r: Vec<Vec<u8>>)
        requires
            old(self).wf(),
        ensures
            final(self).wf(),
            final(self).view().provider == Some(provider),
            final(self).view().backlog.len() == 0,
            chunk_views(r@) == old(self).view().backlog,
    {
        self.provider = Some(provider);
        self.backlog_bytes = 0;
        let mut replay: Vec<Vec<u8>> = Vec::new();
        while self.backlog.len() > 0
            invariant
                chunk_views(replay@) + chunk_views(self.backlog@) == chunk_views(
                    old(self).backlog@,
                ),
                self.provider == Some(provider),
                self.backlog_bytes == 0,
            decreases self.backlog@.len(),
        {
            let ghost before = self.backlog@;
            let ghost done = replay@;
            match self.backlog.pop_front() {
                Some(chunk) => {
                    replay.push(chunk);
                    proof {
                        assert(chunk_views(replay@) =~= chunk_views(done).push(chunk@));
                        assert(chunk_views(self.backlog@) =~= chunk_views(before).drop_first());
                        assert(chunk_views(replay@) + chunk_views(self.backlog@) =~= chunk_views(
                            done,
                        ) + chunk_views(before));
                    }
                },
                None => {},
            }
        }
        proof {
            assert(chunk_views(self.backlog@) =~= Seq::<Seq<u8>>::empty());
            assert(chunk_views(replay@) =~= chunk_views(replay@) + chunk_views(self.backlog@));
        }
        replay
    }

    /// Detaches the provider; audio is held back again until the next one attaches.
    pub fn detach(&mut self)
        requires
            old(self).wf(),
        ensures
            final(self).wf(),
            final(self).view().provider is None,
            final(self).view().backlog == old(self).view().backlog,
    {
        self.provider = None;
    }

    /// The provider audio currently goes to, if one is attached.
    pub fn provider(&self) -> (r: Option<u64>)
        ensures
            r == self.view().provider,
    {
        self.provider
    }

    /// The number of bytes held back.
    pub fn backlog_bytes(&self) -> (r: usize)
        requires
            self.wf(),
        ensures
            r == total_bytes(self.view().backlog),
    {
        self.backlog_bytes
    }

    /// The sizes of the held-back chunks, oldest first.
    pub fn backlog_sizes(&self) -> (r: Vec<usize>)
        ensures
            r@.len() == self.view().backlog.len(),
            forall|i: int| 0 <= i < r@.len() ==> r@[i] == self.view().backlog[i].len(),
    {
        let mut sizes: Vec<usize> = Vec::new();
        let n = self.backlog.len();
        let mut i: usize = 0;
        while i < n
            invariant
                n == self.backlog@.len(),
                i <= n,
                sizes@.len() == i,
                forall|j: int| 0 <= j < i ==> sizes@[j] == self.backlog@[j]@.len(),
            decreases n - i,
        {
            sizes.push(self.backlog[i].len());
            i = i + 1;
        }
        sizes
    }

    /// The first byte of the newest held-back chunk, if there is one and it is not empty.
    pub fn newest_first_byte(&self) -> (r: Option<u8>)
        ensures
            r == (if self.view().backlog.len() > 0
                && self.view().backlog.last().len() > 0 {
                Some(self.view().backlog.last()[0])
            } else {
                None
            }),
    {
        let n = self.backlog.len();
        if n == 0 {
            return None;
        }
        let newest = &self.backlog[n - 1];
        if newest.len() == 0 {
            None
        } else {
            Some(newest[0])
        }
    }
}

/// A chunk larger than the limit empties the backlog it joins.
proof fn lemma_trim_oversized(chunks: Seq<Seq<u8>>, audio: Seq<u8>)
    requires
        chunks.len() > 0,
        chunks.last() == audio,
        audio.len() > BACKLOG_LIMIT_BYTES,
    ensures
        trimmed(chunks) =~= Seq::<Seq<u8>>::empty(),
    decreases chunks.len(),
{
    lemma_total_nonnegative(chunks.drop_last());
    assert(total_bytes(chunks) > BACKLOG_LIMIT_BYTES);
    assert(trimmed(chunks) == trimmed(chunks.drop_first()));
    if chunks.len() == 1 {
        assert(chunks.drop_first() =~= Seq::<Seq<u8>>::empty());
        assert(trimmed(chunks.drop_first()) == chunks.drop_first());
    } else {
        lemma_total_drop_first(chunks);
        assert(chunks.drop_first().last() == audio);
        lemma_trim_oversized(chunks.drop_first(), audio);
    }
}

/// A route as the session runs it.
pub struct ActiveRoute {
    pub config: RouteConfig,
    pub provider_key: ProviderKey,
    pub capture_key: CaptureKey,
    pub state: RouteState,
    pub error: String,
    /// The session that owns the transcript stream.
    pub provider: Option<Session>,
    /// A session being dialled while the current one keeps running.
    pub pending: Option<Session>,
    pub capture: Option<u64>,
    pub capture_ready: bool,
    pub reconnect_attempt: u8,
    pub retry: Option<u64>,
    pub reconfiguring: bool,
    pub assembler: TurnAssembler,
}

pub open spec fn session_ready(s: Option<Session>) -> bool {
    match s {
        Some(session) => session.ready,
        None => false,
    }
}

pub open spec fn session_token_is(s: Option<Session>, token: u64) -> bool {
    match s {
        Some(session) => session.token == token,
        None => false,
    }
}

/// The label and the reconfiguring flag a route gets when its state is recomputed. A route
/// waiting on a scheduled retry owns no session and keeps its own label; Live needs both a
/// ready session and a ready capture stream.
pub open spec fn refreshed(
    state: RouteState,
    provider: Option<Session>,
    capture_ready: bool,
    reconfiguring: bool,
    reconnect_attempt: u8,
) -> (RouteState, bool) {
    if (state is Failed || state is Reconnecting) && provider is None {
        (state, reconfiguring)
    } else if session_ready(provider) && capture_ready {
        (RouteState::Live, false)
    } else if reconfiguring {
        (RouteState::Reconfiguring, true)
    } else if reconnect_attempt > 0 {
        (RouteState::Reconnecting, false)
    } else {
        (RouteState::Connecting, false)
    }
}

impl ActiveRoute {
    pub fn new(
        route_id: &str,
        config: RouteConfig,
        provider_key: ProviderKey,
        capture_key: CaptureKey,
    ) -> (r: Self)
        ensures
            r.config@ == config@,
            r.provider_key@ == provider_key@,
            r.capture_key@ == capture_key@,
            r.state == RouteState::Connecting,
            r.error@.len() == 0,
            r.provider is None,
            r.pending is None,
            r.capture is None,
            !r.capture_ready,
            r.reconnect_attempt == 0,
            r.retry is None,
            !r.reconfiguring,
            r.assembler.view().route_id == route_id@,
            r.assembler.view().route == config@,
            r.assembler.view().originals.len() == 0,
            r.assembler.view().translations.len() == 0,
    {
        let assembler = TurnAssembler::new(route_id, &config);
        ActiveRoute {
            config,
            provider_key,
            capture_key,
            state: RouteState::Connecting,
            error: String::new(),
            provider: None,
            pending: None,
            capture: None,
            capture_ready: false,
            reconnect_attempt: 0,
            retry: None,
            reconfiguring: false,
            assembler,
        }
    }

    /// Whether the live session carries this token. A pending session never answers for it.
    pub fn owns(&self, token: u64) -> (r: bool)
        ensures
            r == session_token_is(self.provider, token),
    {
        match self.provider {
            Some(session) => session.token == token,
            None => false,
        }
    }

    pub fn owns_pending(&self, token: u64) -> (r: bool)
        ensures
            r == session_token_is(self.pending, token),
    {
        match self.pending {
            Some(session) => session.token == token,
            None => false,
        }
    }

    pub fn is_ready(&self) -> (r: bool)
        ensures
            r == session_ready(self.provider),
    {
        match self.provider {
            Some(session) => session.ready,
            None => false,
        }
    }

    /// Every provider handle the route holds, live first: a make-before-break handover
    /// must stop both sockets, not just the live one.
    pub fn handles(&self) -> (r: Vec<u64>)
        ensures
            r@ == (match (self.provider, self.pending) {
                (Some(p), Some(q)) => seq![p.handle, q.handle],
                (Some(p), None) => seq![p.handle],
                (None, Some(q)) => seq![q.handle],
                (None, None) => Seq::<u64>::empty(),
            }),
    {
        let mut out: Vec<u64> = Vec::new();
        if let Some(session) = self.provider {
            out.push(session.handle);
        }
        if let Some(session) = self.pending {
            out.push(session.handle);
        }
        proof {
            assert(out@ =~= (match (self.provider, self.pending) {
                (Some(p), Some(q)) => seq![p.handle, q.handle],
                (Some(p), None) => seq![p.handle],
                (None, Some(q)) => seq![q.handle],
                (None, None) => Seq::<u64>::empty(),
            }));
        }
        out
    }

    /// A transcript arrived, so this session genuinely works and earns a fresh retry
    /// budget. Reaching Live only proves the socket opened, which a provider that rejects
    /// every session also manages.
    pub fn mark_working(&mut self)
        ensures
            *final(self) == (ActiveRoute { reconnect_attempt: 0, ..*old(self) }),
    {
        self.reconnect_attempt = 0;
    }

    /// Recomputes the route's label. Reaching Live does not refill the retry budget: a
    /// provider that accepts the socket and then drops it would otherwise reconnect forever.
    pub fn refresh_state(&mut self)
        ensures
            (final(self).state, final(self).reconfiguring) == refreshed(
                old(self).state,
                old(self).provider,
                old(self).capture_ready,
                old(self).reconfiguring,
                old(self).reconnect_attempt,
            ),
            final(self).reconnect_attempt == old(self).reconnect_attempt,
            final(self).provider == old(self).provider,
            final(self).pending == old(self).pending,
            final(self).capture_ready == old(self).capture_ready,
            final(self).retry == old(self).retry,
            final(self).capture == old(self).capture,
            final(self).config@ == old(self).config@,
            final(self).error@ == old(self).error@,
            final(self).assembler.view() == old(self).assembler.view(),
            final(self).provider_key@ == old(self).provider_key@,
            final(self).capture_key@ == old(self).capture_key@,
    {
        let waiting = match self.state {
            RouteState::Failed | RouteState::Reconnecting => true,
            _ => false,
        };
        if waiting && self.provider.is_none() {
            return;
        }
        self.state = if self.is_ready() && self.capture_ready {
            self.reconfiguring = false;
            RouteState::Live
        } else if self.reconfiguring {
            RouteState::Reconfiguring
        } else if self.reconnect_attempt > 0 {
            RouteState::Reconnecting
        } else {
            RouteState::Connecting
        };
    }
}

impl ActiveRoute {
    /// Drops every session on the route and decides what comes next: while its budget
    /// lasts, a retryable failure counts an attempt and waits for a reconnect; anything
    /// else fails the route. Gives the handles of the sessions to stop, live first, and
    /// whether a reconnect is due.
    pub fn tear_down(&mut self, error: String, retryable: bool) -> (r: (Vec<u64>, bool))
        ensures
            r.0@ == (match (old(self).provider, old(self).pending) {
                (Some(p), Some(q)) => seq![p.handle, q.handle],
                (Some(p), None) => seq![p.handle],
                (None, Some(q)) => seq![q.handle],
                (None, None) => Seq::<u64>::empty(),
            }),
            r.1 == (retryable && old(self).reconnect_attempt < 3),
            final(self).provider is None,
            final(self).pending is None,
            !final(self).reconfiguring,
            final(self).error@ == error@,
            final(self).state == (if r.1 {
                RouteState::Reconnecting
            } else {
                RouteState::Failed
            }),
            final(self).reconnect_attempt == (if r.1 {
                (old(self).reconnect_attempt + 1) as u8
            } else {
                old(self).reconnect_attempt
            }),
            final(self).capture == old(self).capture,
            final(self).capture_ready == old(self).capture_ready,
            final(self).retry == old(self).retry,
            final(self).config@ == old(self).config@,
            final(self).provider_key@ == old(self).provider_key@,
            final(self).capture_key@ == old(self).capture_key@,
            final(self).assembler.view() == old(self).assembler.view(),
    {
        let retired = self.handles();
        self.provider = None;
        self.pending = None;
        self.reconfiguring = false;
        self.error = error;
        let retrying = retryable && self.reconnect_attempt < 3;
        if retrying {
            self.reconnect_attempt = self.reconnect_attempt + 1;
            self.state = RouteState::Reconnecting;
        } else {
            self.state = RouteState::Failed;
        }
        (retired, retrying)
    }

    /// The live session reported ready; gives its handle, for the audio bridge to attach
    /// to, or nothing when the route has no live session.
    pub fn provider_ready(&mut self) -> (r: Option<u64>)
        ensures
            match old(self).provider {
                Some(p) => {
                    &&& r == Some(p.handle)
                    &&& final(self).provider == Some(Session { ready: true, ..p })
                    &&& final(self).error@.len() == 0
                },
                None => r is None && final(self).provider is None && final(self).error@
                    == old(self).error@,
            },
            final(self).pending == old(self).pending,
            final(self).state == old(self).state,
            final(self).reconnect_attempt == old(self).reconnect_attempt,
            final(self).reconfiguring == old(self).reconfiguring,
            final(self).capture == old(self).capture,
            final(self).capture_ready == old(self).capture_ready,
            final(self).retry == old(self).retry,
            final(self).config@ == old(self).config@,
            final(self).assembler.view() == old(self).assembler.view(),
    {
        match self.provider {
            Some(session) => {
                self.provider = Some(Session { ready: true, ..session });
                self.error = String::new();
                Some(session.handle)
            },
            None => None,
        }
    }

    /// The replacement session came up: it takes over the live slot, ready, under the
    /// token it reported with, and the route's budget and error are cleared. The retired
    /// live session's turns carry the old languages, so they are closed out before the
    /// assembler adopts the route's current settings. Gives the promoted session, the
    /// retired one to stop, and the closed-out turns.
    pub fn promote_pending(&mut self, route_id: &str, token: u64) -> (r: Option<(Session, Option<Session>, Vec<TranscriptTurn>)>)
        ensures
            match old(self).pending {
                None => r is None && final(self).provider == old(self).provider && final(self).pending is None
                    && final(self).reconfiguring == old(self).reconfiguring
                    && final(self).reconnect_attempt == old(self).reconnect_attempt,
                Some(q) => {
                    &&& r matches Some(x) && x.0 == (Session { ready: true, token, ..q })
                        && x.1 == old(self).provider && crate::transcript::turn_views(x.2@)
                        == crate::transcript::drained(
                        old(self).assembler.view().route_id,
                        old(self).assembler.view().route,
                        old(self).assembler.view().originals,
                        old(self).assembler.view().translations,
                    )
                    &&& final(self).provider == Some(Session { ready: true, token, ..q })
                    &&& final(self).pending is None
                    &&& !final(self).reconfiguring
                    &&& final(self).reconnect_attempt == 0
                    &&& final(self).error@.len() == 0
                    &&& final(self).assembler.view().route_id == route_id@
                    &&& final(self).assembler.view().route == old(self).config@
                    &&& final(self).assembler.view().originals.len() == 0
                    &&& final(self).assembler.view().translations.len() == 0
                },
            },
            final(self).state == old(self).state,
            final(self).capture == old(self).capture,
            final(self).capture_ready == old(self).capture_ready,
            final(self).retry == old(self).retry,
            final(self).config@ == old(self).config@,
    {
        let session = match self.pending {
            Some(s) => s,
            None => return None,
        };
        self.pending = None;
        let promoted = Session { ready: true, token, ..session };
        let retired = self.provider;
        self.provider = Some(promoted);
        let outputs = self.assembler.flush_all();
        self.assembler = TurnAssembler::new(route_id, &self.config);
        self.reconfiguring = false;
        self.reconnect_attempt = 0;
        self.error = String::new();
        Some((promoted, retired, outputs))
    }

    /// Takes the route's new settings and keys.
    pub fn rekey(&mut self, config: RouteConfig, provider_key: ProviderKey, capture_key: CaptureKey)
        ensures
            final(self).config@ == config@,
            final(self).provider_key@ == provider_key@,
            final(self).capture_key@ == capture_key@,
            final(self).provider == old(self).provider,
            final(self).pending == old(self).pending,
            final(self).state == old(self).state,
            final(self).reconnect_attempt == old(self).reconnect_attempt,
            final(self).reconfiguring == old(self).reconfiguring,
            final(self).capture == old(self).capture,
            final(self).capture_ready == old(self).capture_ready,
            final(self).retry == old(self).retry,
            final(self).assembler.view() == old(self).assembler.view(),
    {
        self.config = config;
        self.provider_key = provider_key;
        self.capture_key = capture_key;
    }
}

/// A route is Live after a refresh exactly when its session is ready and its capture
/// stream is up, unless it is waiting out a scheduled retry.
pub proof fn law_live_needs_both_halves(
    state: RouteState,
    provider: Option<Session>,
    capture_ready: bool,
    reconfiguring: bool,
    reconnect_attempt: u8,
)
    requires
        !((state is Failed || state is Reconnecting) && provider is None),
    ensures
        (refreshed(state, provider, capture_ready, reconfiguring, reconnect_attempt).0 is Live)
            <==> (session_ready(provider) && capture_ready),
{
}

/// A route with no session that is waiting out a retry keeps its label whatever else holds.
pub proof fn law_awaiting_retry_keeps_its_label(
    state: RouteState,
    capture_ready: bool,
    reconfiguring: bool,
    reconnect_attempt: u8,
)
    requires
        state is Failed || state is Reconnecting,
    ensures
        refreshed(state, None, capture_ready, reconfiguring, reconnect_attempt).0 == state,
{
}

/// A configuration change that leaves a route's own fields and its engine's settings alone
/// leaves its provider key alone; the capture target never enters it.
pub proof fn law_capture_target_never_rekeys_the_provider(
    c1: ConfigView,
    c2: ConfigView,
    route: RouteView,
)
    requires
        spec_settings_fingerprint(route.engine, c1) == spec_settings_fingerprint(route.engine, c2),
    ensures
        spec_provider_key(c1, route) == spec_provider_key(c2, route),
{
}

/// The microphone route's capture key never depends on the system capture target, and a
/// system route's never on the microphone device.
pub proof fn law_capture_keys_stay_apart(c1: ConfigView, c2: ConfigView, route: RouteView)
    ensures
        route.input == "microphone"@ && c1.microphone_device == c2.microphone_device
            ==> spec_capture_key(c1, route) == spec_capture_key(c2, route),
        route.input != "microphone"@ && c1.system_audio == c2.system_audio ==> spec_capture_key(
            c1,
            route,
        ) == spec_capture_key(c2, route),
{
}

/// The provider key tells routes apart by everything their translator session depends on:
/// two routes with the same key under one configuration have the same translator, model
/// and language pair, so changing any of them makes the session be rebuilt.
pub proof fn law_provider_key_tells_language_pairs_apart(c: ConfigView, r1: RouteView, r2: RouteView)
    requires
        spec_provider_key(c, r1) == spec_provider_key(c, r2),
    ensures
        r1.engine == r2.engine,
        r1.model == r2.model,
        r1.source_language == r2.source_language,
        r1.target_language == r2.target_language,
{
    assert(spec_provider_key(c, r1).source_language == spec_provider_key(c, r2).source_language);
    assert(spec_provider_key(c, r1).target_language == spec_provider_key(c, r2).target_language);
    assert(spec_provider_key(c, r1).engine == spec_provider_key(c, r2).engine);
    assert(spec_provider_key(c, r1).model == spec_provider_key(c, r2).model);
}

} // verus!
