//! What capture streams are asked for and which route holds which source. The OS capture
//! itself (CoreAudio, WASAPI, cpal) runs in the shell.

use crate::session_store::is_id_char;
use crate::text::{chars_of, str_eq, to_owned};
use vstd::prelude::*;

verus! {

/// The sample rate every capture stream is converted to.
pub const TARGET_SAMPLE_RATE: u32 = 16000;

/// An application whose audio can be captured on its own.
pub struct CapturableApplication {
    pub bundle_id: String,
    pub name: String,
}

/// What a route asks the capture worker for.
pub enum CaptureRequest {
    System { application_bundle_id: Option<String> },
    Microphone { device: Option<String> },
}

/// The two sources the machine offers; each can feed one route at a time.
#[derive(Clone, Copy, Debug, PartialEq, Eq, Structural)]
pub enum AudioSource {
    System,
    Microphone,
}

impl AudioSource {
    pub fn name(self) -> (r: &'static str)
        ensures
            r@ == (match self {
                AudioSource::System => "system"@,
                AudioSource::Microphone => "microphone"@,
            }),
    {
        match self {
            AudioSource::System => "system",
            AudioSource::Microphone => "microphone",
        }
    }
}

pub open spec fn spec_source_of(request: CaptureRequest) -> AudioSource {
    match request {
        CaptureRequest::System { .. } => AudioSource::System,
        CaptureRequest::Microphone { .. } => AudioSource::Microphone,
    }
}

pub fn source_of(request: &CaptureRequest) -> (r: AudioSource)
    ensures
        r == spec_source_of(*request),
{
    match request {
        CaptureRequest::System { .. } => AudioSource::System,
        CaptureRequest::Microphone { .. } => AudioSource::Microphone,
    }
}

/// A capture route identifier: one to thirty-two ASCII letters, digits, `-` or `_`.
pub open spec fn spec_valid_route_id(id: Seq<char>) -> bool {
    &&& 0 < id.len() <= 32
    &&& forall|i: int| 0 <= i < id.len() ==> is_id_char(#[trigger] id[i])
}

pub fn validate_route_id(route_id: &str) -> (r: Result<(), String>)
    ensures
        r is Ok <==> spec_valid_route_id(route_id@),
        r is Err ==> r->Err_0@ == "Invalid audio route id"@,
{
    let chars = chars_of(route_id);
    let mut valid = chars.len() > 0 && chars.len() <= 32;
    let mut i: usize = 0;
    while i < chars.len()
        invariant
            0 <= i <= chars@.len(),
            chars@ == route_id@,
            valid == (0 < route_id@.len() <= 32 && forall|j: int|
                0 <= j < i ==> is_id_char(#[trigger] route_id@[j])),
        decreases chars@.len() - i,
    {
        let c = chars[i];
        let ok = ('a' <= c && c <= 'z') || ('A' <= c && c <= 'Z') || ('0' <= c && c <= '9') || c
            == '-' || c == '_';
        valid = valid && ok;
        i = i + 1;
    }
    if valid {
        Ok(())
    } else {
        Err(to_owned("Invalid audio route id"))
    }
}

/// Which route holds which source. A route starting a capture first gives up whatever it
/// held, and a source another route holds is refused.
pub struct CaptureSlots {
    active: Vec<(String, AudioSource)>,
}

pub open spec fn slot_views(s: Seq<(String, AudioSource)>) -> Seq<(Seq<char>, AudioSource)> {
    s.map_values(|e: (String, AudioSource)| (e.0@, e.1))
}

/// The holders after `route` lets go.
pub open spec fn released(s: Seq<(Seq<char>, AudioSource)>, route: Seq<char>) -> Seq<(Seq<char>, AudioSource)>
    decreases s.len(),
{
    if s.len() == 0 {
        s
    } else if s.last().0 != route {
        released(s.drop_last(), route).push(s.last())
    } else {
        released(s.drop_last(), route)
    }
}

pub open spec fn holds_source(s: Seq<(Seq<char>, AudioSource)>, source: AudioSource) -> bool {
    exists|i: int| 0 <= i < s.len() && #[trigger] s[i].1 == source
}

impl CaptureSlots {
    pub closed spec fn view(&self) -> Seq<(Seq<char>, AudioSource)> {
        slot_views(self.active@)
    }

    pub fn new() -> (r: Self)
        ensures
            r.view().len() == 0,
    {
        let r = CaptureSlots { active: Vec::new() };
        assert(slot_views(r.active@) =~= Seq::<(Seq<char>, AudioSource)>::empty());
        r
    }

    /// Lets go of whatever `route` holds; gives the source it held, if any.
    pub fn release(&mut self, route: &str) -> (r: Option<AudioSource>)
        ensures
            final(self).view() == released(old(self).view(), route@),
            r is Some <==> exists|i: int| 0 <= i < old(self).view().len() && #[trigger] old(self).view()[i].0 == route@,
            r matches Some(source) ==> exists|i: int| 0 <= i < old(self).view().len() && #[trigger] old(self).view()[i] == (route@, source),
    {
        let ghost start = slot_views(self.active@);
        let mut kept: Vec<(String, AudioSource)> = Vec::new();
        let mut found: Option<AudioSource> = None;
        let mut i: usize = 0;
        proof {
            assert(start.take(0) =~= Seq::<(Seq<char>, AudioSource)>::empty());
            assert(slot_views(kept@) =~= Seq::<(Seq<char>, AudioSource)>::empty());
        }
        while i < self.active.len()
            invariant
                0 <= i <= self.active@.len(),
                start == slot_views(self.active@),
                slot_views(kept@) == released(start.take(i as int), route@),
                found is Some <==> exists|j: int| 0 <= j < i && #[trigger] start[j].0 == route@,
                found matches Some(source) ==> exists|j: int| 0 <= j < i && #[trigger] start[j] == (route@, source),
            decreases self.active@.len() - i,
        {
            let entry = &self.active[i];
            proof {
                assert(start[i as int] == (entry.0@, entry.1));
                assert(start.take(i + 1).drop_last() =~= start.take(i as int));
                assert(start.take(i + 1).last() == start[i as int]);
            }
            if str_eq(entry.0.as_str(), route) {
                found = Some(entry.1);
                proof {
                    assert(released(start.take(i + 1), route@) == released(start.take(i as int), route@));
                }
            } else {
                let ghost before = slot_views(kept@);
                kept.push((entry.0.clone(), entry.1));
                proof {
                    assert(slot_views(kept@) =~= before.push((entry.0@, entry.1)));
                    assert(released(start.take(i + 1), route@) == released(start.take(i as int), route@).push(
                        start[i as int],
                    ));
                }
            }
            i = i + 1;
        }
        proof {
            assert(start.take(start.len() as int) =~= start);
            assert(start == old(self).view());
        }
        self.active = kept;
        found
    }

    /// Claims `source` for `route` after letting go of whatever `route` held; refused when
    /// another route holds the source.
    pub fn claim(&mut self, route: &str, source: AudioSource) -> (r: Result<(), String>)
        ensures
            ({
                let rest = released(old(self).view(), route@);
                if holds_source(rest, source) {
                    &&& r is Err
                    &&& r->Err_0@ == "Audio source is already in use"@
                    &&& final(self).view() == rest
                } else {
                    &&& r is Ok
                    &&& final(self).view() == rest.push((route@, source))
                }
            }),
    {
        self.release(route);
        let mut i: usize = 0;
        while i < self.active.len()
            invariant
                0 <= i <= self.active@.len(),
                forall|j: int| 0 <= j < i ==> #[trigger] slot_views(self.active@)[j].1 != source,
                self.view() == released(old(self).view(), route@),
            decreases self.active@.len() - i,
        {
            if self.active[i].1 == source {
                proof {
                    assert(slot_views(self.active@)[i as int].1 == source);
                    assert(holds_source(self.view(), source));
                    assert(holds_source(released(old(self).view(), route@), source));
                }
                return Err(to_owned("Audio source is already in use"));
            }
            i = i + 1;
        }
        let ghost before = slot_views(self.active@);
        self.active.push((to_owned(route), source));
        proof {
            assert(slot_views(self.active@) =~= before.push((route@, source)));
        }
        Ok(())
    }
}

/// After `route` lets go, the holders are exactly those of other routes.
pub proof fn lemma_released_members(s: Seq<(Seq<char>, AudioSource)>, route: Seq<char>, e: (Seq<char>, AudioSource))
    ensures
        released(s, route).contains(e) <==> (s.contains(e) && e.0 != route),
    decreases s.len(),
{
    if s.len() > 0 {
        let rest = s.drop_last();
        lemma_released_members(rest, route, e);
        if s.contains(e) && e.0 != route {
            let i = choose|i: int| 0 <= i < s.len() && s[i] == e;
            if i < s.len() - 1 {
                assert(rest[i] == e);
                assert(rest.contains(e));
            }
        }
        if s.last().0 != route {
            let after = released(rest, route).push(s.last());
            if after.contains(e) {
                let i = choose|i: int| 0 <= i < after.len() && after[i] == e;
                if i < after.len() - 1 {
                    assert(released(rest, route)[i] == e);
                    assert(released(rest, route).contains(e));
                    let j = choose|j: int| 0 <= j < rest.len() && rest[j] == e;
                    assert(s[j] == e);
                } else {
                    assert(s[s.len() - 1] == e);
                }
            }
            if released(rest, route).contains(e) {
                let i = choose|i: int| 0 <= i < released(rest, route).len() && released(rest, route)[i] == e;
                assert(after[i] == e);
            }
            if s.last() == e {
                assert(after[after.len() - 1] == e);
            }
        } else {
            if rest.contains(e) {
                let j = choose|j: int| 0 <= j < rest.len() && rest[j] == e;
                assert(s[j] == e);
            }
        }
    }
}

/// A source another route holds is refused: after `route` lets go of whatever it held,
/// the other route still holds the source, so a claim on it fails and leaves exactly the
/// other routes' holdings, with nothing left for `route`.
pub proof fn law_a_source_held_elsewhere_is_refused(
    s: Seq<(Seq<char>, AudioSource)>,
    route: Seq<char>,
    other: Seq<char>,
    source: AudioSource,
)
    requires
        s.contains((other, source)),
        other != route,
    ensures
        holds_source(released(s, route), source),
        forall|e: (Seq<char>, AudioSource)| #[trigger] released(s, route).contains(e) <==> (s.contains(e) && e.0 != route),
{
    lemma_released_members(s, route, (other, source));
    let rest = released(s, route);
    let i = choose|i: int| 0 <= i < rest.len() && rest[i] == (other, source);
    assert(rest[i].1 == source);
    assert forall|e: (Seq<char>, AudioSource)| #[trigger] released(s, route).contains(e) <==> (s.contains(e) && e.0 != route) by {
        lemma_released_members(s, route, e);
    }
}

/// A source that is claimed has exactly one holder afterwards: the route that claimed it.
pub proof fn law_a_claimed_source_has_one_holder(
    s: Seq<(Seq<char>, AudioSource)>,
    route: Seq<char>,
    source: AudioSource,
)
    requires
        !holds_source(released(s, route), source),
    ensures
        ({
            let after = released(s, route).push((route, source));
            forall|i: int| 0 <= i < after.len() && #[trigger] after[i].1 == source ==> i == after.len() - 1
        }),
{
    let rest = released(s, route);
    let after = rest.push((route, source));
    assert forall|i: int| 0 <= i < after.len() && #[trigger] after[i].1 == source implies i == after.len() - 1 by {
        if i < rest.len() {
            assert(after[i] == rest[i]);
        }
    }
}

/// How long captured audio gathers before it is handed on, in milliseconds.
pub const FLUSH_INTERVAL_MS: u64 = 120;

/// A microphone delivers at a constant rate whether anyone speaks or not, so this long
/// with no bytes, in milliseconds, means the stream is dead. Never applied to system
/// audio, where no bytes is what silence legitimately looks like.
pub const MICROPHONE_STALL_MS: u64 = 5000;

/// The time from `since` to `now`, or none when the reading went backwards.
pub open spec fn since(now: u64, earlier: u64) -> nat {
    if now >= earlier {
        (now - earlier) as nat
    } else {
        0
    }
}

/// Gathers one capture stream's audio between hand-overs and watches a microphone for a
/// stall. Times are milliseconds on one monotonic clock.
pub struct Forwarder {
    buffer: Vec<u8>,
    last_flush: u64,
    last_data: u64,
    watches_stall: bool,
}

impl Forwarder {
    /// The audio gathered since the last hand-over.
    pub closed spec fn gathered(&self) -> Seq<u8> {
        self.buffer@
    }

    pub closed spec fn last_flush(&self) -> u64 {
        self.last_flush
    }

    pub closed spec fn last_data(&self) -> u64 {
        self.last_data
    }

    pub closed spec fn watches_stall(&self) -> bool {
        self.watches_stall
    }

    /// A stream starting at `now`; `watches_stall` for a microphone.
    pub fn new(now: u64, watches_stall: bool) -> (r: Self)
        ensures
            r.gathered().len() == 0,
            r.last_flush() == now,
            r.last_data() == now,
            r.watches_stall() == watches_stall,
    {
        Forwarder { buffer: Vec::new(), last_flush: now, last_data: now, watches_stall }
    }

    /// Audio arrived at `now`.
    pub fn take(&mut self, data: Vec<u8>, now: u64)
        ensures
            final(self).gathered() == old(self).gathered() + data@,
            final(self).last_data() == now,
            final(self).last_flush() == old(self).last_flush(),
            final(self).watches_stall() == old(self).watches_stall(),
    {
        let mut i: usize = 0;
        while i < data.len()
            invariant
                0 <= i <= data@.len(),
                self.buffer@ == old(self).buffer@ + data@.take(i as int),
                self.last_flush == old(self).last_flush,
                self.last_data == old(self).last_data,
                self.watches_stall == old(self).watches_stall,
            decreases data@.len() - i,
        {
            self.buffer.push(data[i]);
            proof {
                assert(data@.take(i + 1) =~= data@.take(i as int).push(data@[i as int]));
            }
            i += 1;
        }
        proof {
            assert(data@.take(data@.len() as int) =~= data@);
        }
        self.last_data = now;
    }

    /// Everything still gathered, handed over at the end of the stream; nothing when
    /// nothing is.
    pub fn drain(&mut self) -> (r: Option<Vec<u8>>)
        ensures
            old(self).gathered().len() == 0 ==> r is None,
            old(self).gathered().len() > 0 ==> (r matches Some(audio) && audio@ == old(self).gathered()),
            final(self).gathered().len() == 0,
            final(self).last_flush() == old(self).last_flush(),
            final(self).last_data() == old(self).last_data(),
            final(self).watches_stall() == old(self).watches_stall(),
    {
        if self.buffer.len() == 0 {
            return None;
        }
        let mut audio: Vec<u8> = Vec::new();
        std::mem::swap(&mut audio, &mut self.buffer);
        Some(audio)
    }

    /// Whether a watched stream has delivered nothing for the stall limit by `now`.
    pub fn stalled(&self, now: u64) -> (r: bool)
        ensures
            r == (self.watches_stall() && since(now, self.last_data()) >= MICROPHONE_STALL_MS),
    {
        self.watches_stall && now >= self.last_data && now - self.last_data >= MICROPHONE_STALL_MS
    }

    /// The audio to hand over at `now`: what has gathered, once the flush interval has
    /// passed since the last hand-over and something is there.
    pub fn due(&mut self, now: u64) -> (r: Option<Vec<u8>>)
        ensures
            ({
                let ready = since(now, old(self).last_flush()) >= FLUSH_INTERVAL_MS && old(self).gathered().len() > 0;
                &&& ready ==> (r matches Some(audio) && audio@ == old(self).gathered()
                    && final(self).gathered().len() == 0 && final(self).last_flush() == now)
                &&& !ready ==> r is None && final(self).gathered() == old(self).gathered()
                    && final(self).last_flush() == old(self).last_flush()
            }),
            final(self).last_data() == old(self).last_data(),
            final(self).watches_stall() == old(self).watches_stall(),
    {
        if now < self.last_flush || now - self.last_flush < FLUSH_INTERVAL_MS || self.buffer.len() == 0 {
            return None;
        }
        let mut audio: Vec<u8> = Vec::new();
        std::mem::swap(&mut audio, &mut self.buffer);
        self.last_flush = now;
        Some(audio)
    }
}

} // verus!
