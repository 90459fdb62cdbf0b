//! Qwen LiveTranslate: the endpoint a session dials, the error text it may show, and what
//! each server event means. The websocket itself runs in the shell.

use crate::json::{base64, base64_string, json_has, json_has_at, json_quoted, json_str, json_str_at, json_string, opt_chars};
use crate::realtime::{Event, EventView, FragmentKind, event_views};
use crate::session_store::is_id_char;
use crate::text::{
    chars_of, decimal, decimal_string, joined, push_str, replace_str, replaced, str_eq, to_owned, trim,
    trim_str, views,
};
use crate::translators::{qwen_region, spec_qwen_region};
use vstd::prelude::*;

verus! {

/// The one model the endpoint still serves.
pub open spec fn current_model() -> Seq<char> {
    "qwen3.5-livetranslate-flash-realtime"@
}

pub struct QwenRealtimeConfig {
    pub api_key: String,
    pub source_language: String,
    pub target_language: String,
    pub region: String,
    pub workspace_id: String,
    pub model: String,
    pub route_id: String,
}

/// Every occurrence of a non-empty secret replaced by `mark`; an empty secret leaves the
/// text alone.
pub open spec fn redacted(s: Seq<char>, secret: Seq<char>, mark: Seq<char>) -> Seq<char> {
    if secret.len() == 0 {
        s
    } else {
        replaced(s, secret, mark)
    }
}

pub fn redact(message: String, secret: &str, mark: &str) -> (r: String)
    ensures
        r@ == redacted(message@, secret@, mark@),
{
    if secret.is_empty() {
        message
    } else {
        replace_str(message.as_str(), secret, mark)
    }
}

/// The key and the workspace never reach an error the user sees.
pub open spec fn spec_sanitized(cfg: QwenRealtimeConfig, message: Seq<char>) -> Seq<char> {
    redacted(redacted(message, cfg.api_key@, "<redacted>"@), cfg.workspace_id@, "<redacted>"@)
}

pub fn sanitize_error(cfg: &QwenRealtimeConfig, message: String) -> (r: String)
    ensures
        r@ == spec_sanitized(*cfg, message@),
{
    let first = redact(message, cfg.api_key.as_str(), "<redacted>");
    redact(first, cfg.workspace_id.as_str(), "<redacted>")
}

/// The websocket URL and host of a session, or why there is none: only the current model
/// is served, a workspace identifier is required and may only hold ASCII letters, digits,
/// `-` and `_`, and the region must be one Qwen serves.
pub open spec fn spec_endpoint(cfg: QwenRealtimeConfig) -> Result<(Seq<char>, Seq<char>), Seq<char>> {
    let model = trim(cfg.model@);
    let workspace = trim(cfg.workspace_id@);
    if model != current_model() {
        Err("Unsupported Qwen LiveTranslate model: "@ + model)
    } else if workspace.len() == 0 {
        Err("Qwen3.5 requires a Model Studio Workspace ID"@)
    } else if !(forall|i: int| 0 <= i < workspace.len() ==> is_id_char(#[trigger] workspace[i])) {
        Err("Workspace ID contains unsupported characters"@)
    } else {
        match spec_qwen_region(cfg.region@) {
            None => Err("Unsupported Qwen region: "@ + cfg.region@),
            Some(region) => {
                let host = workspace + "."@ + region + ".maas.aliyuncs.com"@;
                Ok(("wss://"@ + host + "/api-ws/v1/realtime?model="@ + model, host))
            },
        }
    }
}

pub open spec fn result_views(r: Result<(String, String), String>) -> Result<(Seq<char>, Seq<char>), Seq<char>> {
    match r {
        Ok((a, b)) => Ok((a@, b@)),
        Err(e) => Err(e@),
    }
}

pub fn build_qwen_endpoint(cfg: &QwenRealtimeConfig) -> (r: Result<(String, String), String>)
    ensures
        result_views(r) == spec_endpoint(*cfg),
{
    let model = trim_str(cfg.model.as_str());
    proof {
        reveal_strlit("qwen3.5-livetranslate-flash-realtime");
    }
    if !str_eq(model.as_str(), "qwen3.5-livetranslate-flash-realtime") {
        let mut message = to_owned("Unsupported Qwen LiveTranslate model: ");
        push_str(&mut message, model.as_str());
        return Err(message);
    }
    let workspace = trim_str(cfg.workspace_id.as_str());
    if workspace.as_str().is_empty() {
        return Err(to_owned("Qwen3.5 requires a Model Studio Workspace ID"));
    }
    let chars = chars_of(workspace.as_str());
    let mut i: usize = 0;
    while i < chars.len()
        invariant
            0 <= i <= chars@.len(),
            chars@ == workspace@,
            forall|j: int| 0 <= j < i ==> is_id_char(#[trigger] workspace@[j]),
            trim(cfg.model@) == current_model(),
            workspace@ == trim(cfg.workspace_id@),
            workspace@.len() > 0,
        decreases chars@.len() - i,
    {
        let c = chars[i];
        let ok = ('a' <= c && c <= 'z') || ('A' <= c && c <= 'Z') || ('0' <= c && c <= '9') || c
            == '-' || c == '_';
        if !ok {
            proof {
                assert(!is_id_char(workspace@[i as int]));
                assert(!(forall|j: int| 0 <= j < workspace@.len() ==> is_id_char(#[trigger] workspace@[j])));
                assert(trim(cfg.model@) == current_model());
            }
            return Err(to_owned("Workspace ID contains unsupported characters"));
        }
        i = i + 1;
    }
    let region = match qwen_region(cfg.region.as_str()) {
        Some(r) => r,
        None => {
            let mut message = to_owned("Unsupported Qwen region: ");
            push_str(&mut message, cfg.region.as_str());
            return Err(message);
        },
    };
    let mut host = workspace.clone();
    push_str(&mut host, ".");
    push_str(&mut host, region);
    push_str(&mut host, ".maas.aliyuncs.com");
    let mut url = to_owned("wss://");
    push_str(&mut url, host.as_str());
    push_str(&mut url, "/api-ws/v1/realtime?model=");
    push_str(&mut url, model.as_str());
    Ok((url, host))
}

/// The language the source transcript is requested in: Qwen needs one, so an unset or
/// automatic source falls back to English.
pub open spec fn spec_source_language(source: Seq<char>) -> Seq<char> {
    if source.len() == 0 || source == "auto"@ {
        "en"@
    } else {
        source
    }
}

pub fn session_source_language(source: &str) -> (r: &str)
    ensures
        r@ == spec_source_language(source@),
{
    proof {
        reveal_strlit("auto");
    }
    if source.is_empty() || str_eq(source, "auto") {
        "en"
    } else {
        source
    }
}

/// The message that configures a session, numbered `event`: text only, 16 kHz PCM in, the
/// source transcribed as well as translated, and the server detecting turns in the
/// continuous audio.
pub open spec fn session_update_text(cfg: QwenRealtimeConfig, event: u64) -> Seq<char> {
    "{\"event_id\":\"event_session_"@ + decimal(event as nat)
        + "\",\"type\":\"session.update\",\"session\":{\"modalities\":[\"text\"],\"sample_rate\":16000,\"input_audio_format\":\"pcm\",\"input_audio_transcription\":{\"language\":"@
        + json_quoted(spec_source_language(cfg.source_language@))
        + ",\"model\":\"qwen3-asr-flash-realtime\"},\"translation\":{\"language\":"@
        + json_quoted(cfg.target_language@)
        + "},\"turn_detection\":{\"type\":\"server_vad\",\"threshold\":0.2,\"silence_duration_ms\":800}}}"@
}

/// The configuring message numbered `event` (see `session_update_text`).
pub fn session_update(cfg: &QwenRealtimeConfig, event: u64) -> (r: String)
    ensures
        r@ == session_update_text(*cfg, event),
{
    let mut out = to_owned("{\"event_id\":\"event_session_");
    let number = decimal_string(event);
    push_str(&mut out, number.as_str());
    push_str(
        &mut out,
        "\",\"type\":\"session.update\",\"session\":{\"modalities\":[\"text\"],\"sample_rate\":16000,\"input_audio_format\":\"pcm\",\"input_audio_transcription\":{\"language\":",
    );
    let source = json_string(session_source_language(cfg.source_language.as_str()));
    push_str(&mut out, source.as_str());
    push_str(&mut out, ",\"model\":\"qwen3-asr-flash-realtime\"},\"translation\":{\"language\":");
    let target = json_string(cfg.target_language.as_str());
    push_str(&mut out, target.as_str());
    push_str(
        &mut out,
        "},\"turn_detection\":{\"type\":\"server_vad\",\"threshold\":0.2,\"silence_duration_ms\":800}}}",
    );
    out
}

/// A random number (`rand::random::<u64>`); nothing is promised of it.
#[verifier::external_body]
fn random_number() -> u64 {
    rand::random::<u64>()
}

/// The session's configuring message under a random event number.
pub fn build_session_update(cfg: &QwenRealtimeConfig) -> (r: String)
    ensures
        exists|event: u64| r@ == #[trigger] session_update_text(*cfg, event),
{
    session_update(cfg, random_number())
}

/// The message that appends a chunk of audio, numbered `event`, the audio in base64.
pub open spec fn audio_append_text(event: u64, audio: Seq<u8>) -> Seq<char> {
    "{\"event_id\":\"event_audio_"@ + decimal(event as nat)
        + "\",\"type\":\"input_audio_buffer.append\",\"audio\":\""@ + base64(audio) + "\"}"@
}

/// The audio message numbered `event` (see `audio_append_text`).
pub fn audio_append(event: u64, audio: &[u8]) -> (r: String)
    requires
        audio@.len() < usize::MAX / 2,
    ensures
        r@ == audio_append_text(event, audio@),
{
    let mut out = to_owned("{\"event_id\":\"event_audio_");
    let number = decimal_string(event);
    push_str(&mut out, number.as_str());
    push_str(&mut out, "\",\"type\":\"input_audio_buffer.append\",\"audio\":\"");
    let encoded = base64_string(audio);
    push_str(&mut out, encoded.as_str());
    push_str(&mut out, "\"}");
    out
}

/// The audio message under a random event number.
pub fn audio_message(audio: &[u8]) -> (r: String)
    requires
        audio@.len() < usize::MAX / 2,
    ensures
        exists|event: u64| r@ == #[trigger] audio_append_text(event, audio@),
{
    audio_append(random_number(), audio)
}

/// The message that ends a session, numbered `event`.
pub open spec fn finish_text(event: u64) -> Seq<char> {
    "{\"event_id\":\"event_finish_"@ + decimal(event as nat) + "\",\"type\":\"session.finish\"}"@
}

/// The closing message numbered `event` (see `finish_text`).
pub fn finish(event: u64) -> (r: String)
    ensures
        r@ == finish_text(event),
{
    let mut out = to_owned("{\"event_id\":\"event_finish_");
    let number = decimal_string(event);
    push_str(&mut out, number.as_str());
    push_str(&mut out, "\",\"type\":\"session.finish\"}");
    out
}

/// The closing message under a random event number.
pub fn finish_message() -> (r: String)
    ensures
        exists|event: u64| r@ == #[trigger] finish_text(event),
{
    finish(random_number())
}

/// A string field of a message, or nothing.
pub open spec fn field(text: Seq<char>, name: Seq<char>) -> Option<Seq<char>> {
    json_str_at(text, "/"@ + name)
}

pub open spec fn or_empty(o: Option<Seq<char>>) -> Seq<char> {
    match o {
        Some(s) => s,
        None => Seq::empty(),
    }
}

/// Qwen streams a committed prefix plus an unstable tail; the pair is the current snapshot.
pub open spec fn spec_partial_text(text: Seq<char>) -> Seq<char> {
    or_empty(json_str_at(text, "/text"@)) + or_empty(json_str_at(text, "/stash"@))
}

pub fn partial_text(text: &str) -> (r: String)
    ensures
        r@ == spec_partial_text(text@),
{
    let mut out = match json_str(text, "/text") {
        Some(s) => s,
        None => String::new(),
    };
    if let Some(stash) = json_str(text, "/stash") {
        push_str(&mut out, stash.as_str());
    }
    out
}

/// The type of a server event.
pub fn server_event_type(text: &str) -> (r: Option<String>)
    ensures
        opt_chars(r) == json_str_at(text@, "/type"@),
{
    json_str(text, "/type")
}

/// How long a stop waits for the server's last results, in milliseconds.
pub const FINISH_WAIT_MS: u64 = 3000;

/// What arrives while a stop waits for the server's last results.
pub enum DrainInput {
    /// A text message from the server.
    Text(String),
    /// Any other frame, which changes nothing.
    Other,
    /// The connection closed, failed or ended, or the wait ran out.
    Over,
}

/// One step of the wait after a stop: a text message is handled as any other, and the
/// wait goes on until the server reports the session finished or the connection is over.
/// Gives the events to hand on and whether to keep waiting.
pub fn drain_step(input: DrainInput, last_done: &mut Option<String>) -> (r: (Vec<Event>, bool))
    ensures
        match input {
            DrainInput::Text(text) => {
                let (events, finished, last) = spec_reaction(text@, opt_chars(*old(last_done)));
                event_views(r.0@) == events && r.1 == !finished && opt_chars(*final(last_done)) == last
            },
            DrainInput::Other => r.0@.len() == 0 && r.1 && *final(last_done) == *old(last_done),
            DrainInput::Over => r.0@.len() == 0 && !r.1 && *final(last_done) == *old(last_done),
        },
{
    match input {
        DrainInput::Text(text) => {
            let (events, finished) = handle_server_event(text.as_str(), last_done);
            (events, !finished)
        },
        DrainInput::Other => (Vec::new(), true),
        DrainInput::Over => (Vec::new(), false),
    }
}

/// Whether a server event makes the session ready: the first `session.updated`, the
/// server's acknowledgement of the session's settings, and only the first.
pub fn announces_ready(already_ready: bool, text: &str) -> (r: bool)
    ensures
        r == (!already_ready && json_str_at(text@, "/type"@) == Some("session.updated"@)),
{
    if already_ready {
        return false;
    }
    proof {
        reveal_strlit("session.updated");
    }
    match server_event_type(text) {
        Some(t) => crate::text::str_eq(t.as_str(), "session.updated"),
        None => false,
    }
}

/// What one server event produces, given the id of the last finished translation: the
/// events for the controller, whether it ended the session, and the id to remember. A
/// finished translation the server repeats is dropped, so a turn is never duplicated.
pub open spec fn spec_reaction(text: Seq<char>, last: Option<Seq<char>>) -> (Seq<EventView>, bool, Option<Seq<char>>) {
    match json_str_at(text, "/type"@) {
        None => (Seq::empty(), false, last),
        Some(t) => if t == "session.finished"@ {
            (Seq::empty(), true, last)
        } else if t == "response.text.text"@ {
            let p = spec_partial_text(text);
            (if p.len() > 0 {
                seq![EventView::Fragment { kind: FragmentKind::Translation, text: p, final_fragment: false }]
            } else {
                Seq::empty()
            }, false, last)
        } else if t == "response.text.done"@ {
            let id = match json_str_at(text, "/response_id"@) {
                Some(r) => Some(r),
                None => json_str_at(text, "/item_id"@),
            };
            if id is Some && id == last {
                (Seq::empty(), false, last)
            } else {
                (match json_str_at(text, "/text"@) {
                    Some(done) => seq![EventView::Fragment { kind: FragmentKind::Translation, text: done, final_fragment: true }],
                    None => Seq::empty(),
                }, false, id)
            }
        } else if t == "conversation.item.input_audio_transcription.text"@ {
            let p = spec_partial_text(text);
            (if p.len() > 0 {
                seq![EventView::Fragment { kind: FragmentKind::Original, text: p, final_fragment: false }]
            } else {
                Seq::empty()
            }, false, last)
        } else if t == "conversation.item.input_audio_transcription.completed"@ {
            (match (match json_str_at(text, "/transcript"@) {
                Some(s) => Some(s),
                None => json_str_at(text, "/text"@),
            }) {
                Some(done) => seq![EventView::Fragment { kind: FragmentKind::Original, text: done, final_fragment: true }],
                None => Seq::empty(),
            }, false, last)
        } else {
            (Seq::empty(), false, last)
        },
    }
}

fn single(event: Event) -> (r: Vec<Event>)
    ensures
        event_views(r@) == seq![event@],
{
    let mut out: Vec<Event> = Vec::new();
    out.push(event);
    proof {
        assert(event_views(out@) =~= seq![event@]);
    }
    out
}

fn none() -> (r: Vec<Event>)
    ensures
        event_views(r@) == Seq::<EventView>::empty(),
{
    let out: Vec<Event> = Vec::new();
    proof {
        assert(event_views(out@) =~= Seq::<EventView>::empty());
    }
    out
}

/// Reads one server event: gives the events for the controller and whether the event ended
/// the session; `last_done` remembers the last finished translation.
pub fn handle_server_event(text: &str, last_done: &mut Option<String>) -> (r: (Vec<Event>, bool))
    ensures
        ({
            let (events, finished, last) = spec_reaction(text@, opt_chars(*old(last_done)));
            event_views(r.0@) == events && r.1 == finished && opt_chars(*final(last_done)) == last
        }),
{
    proof {
        reveal_strlit("session.finished");
        reveal_strlit("response.text.text");
        reveal_strlit("response.text.done");
        reveal_strlit("conversation.item.input_audio_transcription.text");
        reveal_strlit("conversation.item.input_audio_transcription.completed");
    }
    let event_type = match json_str(text, "/type") {
        Some(t) => t,
        None => return (none(), false),
    };
    let t = event_type.as_str();
    if str_eq(t, "session.finished") {
        return (none(), true);
    }
    if str_eq(t, "response.text.text") {
        let partial = partial_text(text);
        if partial.as_str().is_empty() {
            return (none(), false);
        }
        return (single(Event::fragment(FragmentKind::Translation, partial, false)), false);
    }
    if str_eq(t, "response.text.done") {
        let id = match json_str(text, "/response_id") {
            Some(r) => Some(r),
            None => json_str(text, "/item_id"),
        };
        let repeated = match (&id, &*last_done) {
            (Some(a), Some(b)) => str_eq(a.as_str(), b.as_str()),
            _ => false,
        };
        if repeated {
            return (none(), false);
        }
        *last_done = id;
        return match json_str(text, "/text") {
            Some(done) => (single(Event::fragment(FragmentKind::Translation, done, true)), false),
            None => (none(), false),
        };
    }
    if str_eq(t, "conversation.item.input_audio_transcription.text") {
        let partial = partial_text(text);
        if partial.as_str().is_empty() {
            return (none(), false);
        }
        return (single(Event::fragment(FragmentKind::Original, partial, false)), false);
    }
    if str_eq(t, "conversation.item.input_audio_transcription.completed") {
        let done = match json_str(text, "/transcript") {
            Some(s) => Some(s),
            None => json_str(text, "/text"),
        };
        return match done {
            Some(done) => (single(Event::fragment(FragmentKind::Original, done, true)), false),
            None => (none(), false),
        };
    }
    (none(), false)
}

/// The non-empty parts of an error, in order.
pub open spec fn present(parts: Seq<Option<Seq<char>>>) -> Seq<Seq<char>>
    decreases parts.len(),
{
    if parts.len() == 0 {
        Seq::empty()
    } else {
        let rest = present(parts.drop_last());
        match parts.last() {
            Some(p) if p.len() > 0 => rest.push(p),
            _ => rest,
        }
    }
}

/// The error a server event reports, if it is one: its code, message and parameter where
/// present, joined with `: `.
pub open spec fn spec_server_error(text: Seq<char>) -> Option<Seq<char>> {
    match json_str_at(text, "/type"@) {
        Some(t) if (t == "error"@ || t == "conversation.item.input_audio_transcription.failed"@)
            && json_has_at(text, "/error"@) => {
            let parameter = match json_str_at(text, "/error/param"@) {
                Some(p) if p.len() > 0 => Some("parameter: "@ + p),
                _ => None,
            };
            let details = present(seq![
                json_str_at(text, "/error/code"@),
                json_str_at(text, "/error/message"@),
                parameter,
            ]);
            Some(if details.len() == 0 {
                "Qwen returned an unknown error"@
            } else {
                joined(details, ": "@)
            })
        },
        _ => None,
    }
}

fn push_present(parts: &mut Vec<String>, part: Option<String>)
    ensures
        views(final(parts)@) == (match opt_chars(part) {
            Some(p) if p.len() > 0 => views(old(parts)@).push(p),
            _ => views(old(parts)@),
        }),
{
    if let Some(p) = part {
        if !p.as_str().is_empty() {
            let ghost before = views(parts@);
            parts.push(p);
            proof {
                assert(views(parts@) =~= before.push(p@));
            }
        }
    }
}

pub fn server_error(text: &str) -> (r: Option<String>)
    ensures
        opt_chars(r) == spec_server_error(text@),
{
    proof {
        reveal_strlit("error");
        reveal_strlit("conversation.item.input_audio_transcription.failed");
    }
    let event_type = match json_str(text, "/type") {
        Some(t) => t,
        None => return None,
    };
    if !(str_eq(event_type.as_str(), "error") || str_eq(
        event_type.as_str(),
        "conversation.item.input_audio_transcription.failed",
    )) {
        return None;
    }
    if !json_has(text, "/error") {
        return None;
    }
    let mut details: Vec<String> = Vec::new();
    proof {
        assert(views(details@) =~= Seq::<Seq<char>>::empty());
    }
    let code = json_str(text, "/error/code");
    let ghost code_v = opt_chars(code);
    push_present(&mut details, code);
    let message = json_str(text, "/error/message");
    let ghost message_v = opt_chars(message);
    push_present(&mut details, message);
    let parameter = match json_str(text, "/error/param") {
        Some(p) => if p.as_str().is_empty() {
            None
        } else {
            let mut labelled = to_owned("parameter: ");
            push_str(&mut labelled, p.as_str());
            Some(labelled)
        },
        None => None,
    };
    let ghost parameter_v = opt_chars(parameter);
    push_present(&mut details, parameter);
    proof {
        reveal_strlit("parameter: ");
        let parts = seq![code_v, message_v, parameter_v];
        assert(parts.drop_last() =~= seq![code_v, message_v]);
        assert(parts.drop_last().drop_last() =~= seq![code_v]);
        assert(parts.drop_last().drop_last().drop_last() =~= Seq::<Option<Seq<char>>>::empty());
        reveal_with_fuel(present, 4);
        assert(views(details@) == present(parts));
        let parameter_spec = match json_str_at(text@, "/error/param"@) {
            Some(p) if p.len() > 0 => Some("parameter: "@ + p),
            _ => None,
        };
        assert(parameter_v == parameter_spec);
    }
    if details.len() == 0 {
        return Some(to_owned("Qwen returned an unknown error"));
    }
    Some(crate::text::join_strings(&details, ": "))
}

/// A repeated finished translation is dropped: handling the same event twice delivers its
/// turn once.
pub proof fn law_repeated_done_events_are_dropped(text: Seq<char>, last: Option<Seq<char>>)
    requires
        json_str_at(text, "/type"@) == Some("response.text.done"@),
        json_str_at(text, "/response_id"@) is Some,
    ensures
        ({
            let (_, _, remembered) = spec_reaction(text, last);
            spec_reaction(text, remembered).0.len() == 0
        }),
{
    reveal_strlit("response.text.done");
    reveal_strlit("session.finished");
    reveal_strlit("response.text.text");
    assert("response.text.done"@.len() != "session.finished"@.len());
    assert("response.text.done"@[14] != "response.text.text"@[14]);
}

/// Which side a server event speaks for: only the input-transcription events carry the
/// original speech and only the response-text events carry the translation; a partial
/// (`.text`) event never closes a segment and a closing (`.done`, `.completed`) one always
/// does; no event yields more than one fragment, and only `session.finished` ends the
/// session. A live translation event shows what it holds so far, its text followed by its
/// stash, as one open translation fragment.
pub proof fn law_each_event_speaks_for_its_own_side(text: Seq<char>, last: Option<Seq<char>>)
    ensures
        ({
            let (events, finished, _) = spec_reaction(text, last);
            let t = json_str_at(text, "/type"@);
            &&& events.len() <= 1
            &&& finished <==> t == Some("session.finished"@)
            &&& forall|i: int| 0 <= i < events.len() ==> (#[trigger] events[i] matches EventView::Fragment { kind, final_fragment, .. }
                && (kind is Original ==> t == Some("conversation.item.input_audio_transcription.text"@)
                    || t == Some("conversation.item.input_audio_transcription.completed"@))
                && (kind is Translation ==> t == Some("response.text.text"@) || t == Some("response.text.done"@))
                && (final_fragment <==> (t == Some("response.text.done"@)
                    || t == Some("conversation.item.input_audio_transcription.completed"@))))
            &&& t == Some("response.text.text"@) ==> {
                let so_far = or_empty(json_str_at(text, "/text"@)) + or_empty(json_str_at(text, "/stash"@));
                &&& so_far.len() > 0 ==> events == seq![EventView::Fragment { kind: FragmentKind::Translation, text: so_far, final_fragment: false }]
                &&& so_far.len() == 0 ==> events.len() == 0
            }
        }),
{
    reveal_strlit("session.finished");
    reveal_strlit("response.text.text");
    reveal_strlit("response.text.done");
    reveal_strlit("conversation.item.input_audio_transcription.text");
    reveal_strlit("conversation.item.input_audio_transcription.completed");
    let t = json_str_at(text, "/type"@);
    assert("session.finished"@[0] != "response.text.text"@[0]);
    assert("session.finished"@[0] != "response.text.done"@[0]);
    assert("session.finished"@ != "conversation.item.input_audio_transcription.text"@);
    assert("session.finished"@ != "conversation.item.input_audio_transcription.completed"@);
    assert("response.text.text"@[14] != "response.text.done"@[14]);
    assert("response.text.text"@ != "conversation.item.input_audio_transcription.text"@);
    assert("response.text.text"@ != "conversation.item.input_audio_transcription.completed"@);
    assert("response.text.done"@ != "conversation.item.input_audio_transcription.text"@);
    assert("response.text.done"@ != "conversation.item.input_audio_transcription.completed"@);
    assert("conversation.item.input_audio_transcription.text"@[44] != "conversation.item.input_audio_transcription.completed"@[44]);
}

} // verus!
