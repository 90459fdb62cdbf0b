//! OpenAI realtime translation: the delta stream joined into segment snapshots, the lull
//! that closes a segment, and what each server event means. Times are milliseconds on one
//! monotonic clock.

use crate::json::{base64, base64_string, json_quoted, json_str, json_str_at, json_string};
use crate::qwen::{present, redact, redacted};
use crate::realtime::{Event, EventView, FragmentKind, event_views, spec_is_permanent};
use crate::text::{joined, push_str, str_eq, to_owned, views};
use vstd::prelude::*;

verus! {

/// No source language: the translation endpoint detects it from the audio and rejects
/// one as an unknown parameter.
pub struct OpenAiRealtimeConfig {
    pub api_key: String,
    pub target_language: String,
}

/// The endpoint never marks segment ends; a lull this long in the deltas is the only turn
/// boundary there is.
pub const SEGMENT_LULL_MS: u64 = 1500;

/// Continuous audio can go minutes without a lull; past this age a segment is committed
/// mid-utterance rather than growing without bound.
pub const SEGMENT_CAP_MS: u64 = 10000;

/// The key never reaches an error the user sees.
pub fn sanitize_error(cfg: &OpenAiRealtimeConfig, message: String) -> (r: String)
    ensures
        r@ == redacted(message@, cfg.api_key@, "[redacted]"@),
{
    redact(message, cfg.api_key.as_str(), "[redacted]")
}

/// The message that configures a session: the whisper transcription model and near-field
/// noise reduction on the input, and only the output language. The endpoint rejects any
/// attempt to pin the input language.
pub open spec fn session_update_text(cfg: OpenAiRealtimeConfig) -> Seq<char> {
    "{\"type\":\"session.update\",\"session\":{\"audio\":{\"input\":{\"transcription\":{\"model\":\"gpt-realtime-whisper\"},\"noise_reduction\":{\"type\":\"near_field\"}},\"output\":{\"language\":"@
        + json_quoted(cfg.target_language@) + "}}}}"@
}

/// The configuring message (see `session_update_text`).
pub fn build_session_update(cfg: &OpenAiRealtimeConfig) -> (r: String)
    ensures
        r@ == session_update_text(*cfg),
{
    let mut out = to_owned(
        "{\"type\":\"session.update\",\"session\":{\"audio\":{\"input\":{\"transcription\":{\"model\":\"gpt-realtime-whisper\"},\"noise_reduction\":{\"type\":\"near_field\"}},\"output\":{\"language\":",
    );
    let target = json_string(cfg.target_language.as_str());
    push_str(&mut out, target.as_str());
    push_str(&mut out, "}}}}");
    out
}

/// The message that appends a chunk of audio, the audio in base64.
pub open spec fn audio_append_text(audio: Seq<u8>) -> Seq<char> {
    "{\"type\":\"session.input_audio_buffer.append\",\"audio\":\""@ + base64(audio) + "\"}"@
}

/// The audio message (see `audio_append_text`).
pub fn audio_append(audio: &[u8]) -> (r: String)
    requires
        audio@.len() < usize::MAX / 2,
    ensures
        r@ == audio_append_text(audio@),
{
    let mut out = to_owned("{\"type\":\"session.input_audio_buffer.append\",\"audio\":\"");
    let encoded = base64_string(audio);
    push_str(&mut out, encoded.as_str());
    push_str(&mut out, "\"}");
    out
}

/// The delta stream joined into full-segment snapshots until a commit closes the segment;
/// a provider owes the controller snapshots, not deltas.
pub struct Segments {
    pub original: String,
    pub translation: String,
    pub last_delta: Option<u64>,
    pub first_delta: Option<u64>,
}

pub open spec fn elapsed_since(now: u64, then: u64) -> int {
    if now >= then {
        now - then
    } else {
        0
    }
}

impl Segments {
    pub fn new() -> (r: Self)
        ensures
            r.original@.len() == 0,
            r.translation@.len() == 0,
            r.last_delta is None,
            r.first_delta is None,
    {
        Segments { original: String::new(), translation: String::new(), last_delta: None, first_delta: None }
    }

    /// A delta arrived at `now`: it is the latest, and the first of its segment if none
    /// came before.
    pub fn note_delta(&mut self, now: u64)
        ensures
            final(self).last_delta == Some(now),
            final(self).first_delta == (match old(self).first_delta {
                Some(f) => Some(f),
                None => Some(now),
            }),
            final(self).original@ == old(self).original@,
            final(self).translation@ == old(self).translation@,
    {
        self.last_delta = Some(now);
        if self.first_delta.is_none() {
            self.first_delta = Some(now);
        }
    }

    /// Whether the segment should be committed at `now`: after a lull, or once it has grown
    /// too old.
    pub open spec fn spec_due(&self, now: u64) -> bool {
        match (self.last_delta, self.first_delta) {
            (Some(last), Some(first)) => elapsed_since(now, last) >= SEGMENT_LULL_MS
                || elapsed_since(now, first) >= SEGMENT_CAP_MS,
            _ => false,
        }
    }

    pub fn due(&self, now: u64) -> (r: bool)
        ensures
            r == self.spec_due(now),
    {
        match (self.last_delta, self.first_delta) {
            (Some(last), Some(first)) => {
                let lull = if now >= last {
                    now - last
                } else {
                    0
                };
                let age = if now >= first {
                    now - first
                } else {
                    0
                };
                lull >= SEGMENT_LULL_MS || age >= SEGMENT_CAP_MS
            },
            _ => false,
        }
    }

    /// Closes the segment: both sides become final together, so the assembler pairs them
    /// into one turn, and the next delta starts afresh.
    pub fn commit(&mut self) -> (r: Vec<Event>)
        ensures
            event_views(r@) == (if old(self).original@.len() > 0 {
                seq![EventView::Fragment { kind: FragmentKind::Original, text: old(self).original@, final_fragment: true }]
            } else {
                Seq::empty()
            }) + (if old(self).translation@.len() > 0 {
                seq![EventView::Fragment { kind: FragmentKind::Translation, text: old(self).translation@, final_fragment: true }]
            } else {
                Seq::empty()
            }),
            final(self).original@.len() == 0,
            final(self).translation@.len() == 0,
            final(self).last_delta is None,
            final(self).first_delta is None,
    {
        let mut out: Vec<Event> = Vec::new();
        let mut original = String::new();
        std::mem::swap(&mut original, &mut self.original);
        let mut translation = String::new();
        std::mem::swap(&mut translation, &mut self.translation);
        let ghost o = original@;
        let ghost t = translation@;
        if !original.as_str().is_empty() {
            out.push(Event::fragment(FragmentKind::Original, original, true));
        }
        let ghost after_original = event_views(out@);
        if !translation.as_str().is_empty() {
            out.push(Event::fragment(FragmentKind::Translation, translation, true));
        }
        self.last_delta = None;
        self.first_delta = None;
        proof {
            let first = if o.len() > 0 {
                seq![EventView::Fragment { kind: FragmentKind::Original, text: o, final_fragment: true }]
            } else {
                Seq::<EventView>::empty()
            };
            assert(after_original =~= first);
            let second = if t.len() > 0 {
                seq![EventView::Fragment { kind: FragmentKind::Translation, text: t, final_fragment: true }]
            } else {
                Seq::<EventView>::empty()
            };
            assert(event_views(out@) =~= first + second);
        }
        out
    }
}

/// The error text of an error event: its code and message where present, joined with
/// `: `, or a stand-in when it has neither.
pub open spec fn spec_error_text(text: Seq<char>) -> Seq<char> {
    let details = present(seq![
        json_str_at(text, "/error/code"@),
        json_str_at(text, "/error/message"@),
    ]);
    if details.len() == 0 {
        "OpenAI returned an unknown error"@
    } else {
        joined(details, ": "@)
    }
}

fn error_text(text: &str) -> (r: String)
    ensures
        r@ == spec_error_text(text@),
{
    let mut details: Vec<String> = Vec::new();
    let code = json_str(text, "/error/code");
    let ghost code_v = crate::json::opt_chars(code);
    if let Some(c) = code {
        if !c.as_str().is_empty() {
            details.push(c);
        }
    }
    let ghost after_code = views(details@);
    let message = json_str(text, "/error/message");
    let ghost message_v = crate::json::opt_chars(message);
    if let Some(m) = message {
        if !m.as_str().is_empty() {
            details.push(m);
        }
    }
    proof {
        let parts = seq![code_v, message_v];
        assert(parts.drop_last() =~= seq![code_v]);
        assert(parts.drop_last().drop_last() =~= Seq::<Option<Seq<char>>>::empty());
        reveal_with_fuel(present, 3);
        assert(after_code =~= present(seq![code_v]));
        assert(views(details@) =~= present(parts));
    }
    if details.len() == 0 {
        return to_owned("OpenAI returned an unknown error");
    }
    crate::text::join_strings(&details, ": ")
}

/// Reads one server event at `now`: deltas grow their side's snapshot and report it, a
/// closed session and an error are reported, everything else is ignored.
pub fn handle_server_event(text: &str, segments: &mut Segments, now: u64) -> (r: Vec<Event>)
    ensures
        ({
            let t = json_str_at(text@, "/type"@);
            let d = json_str_at(text@, "/delta"@);
            if t == Some("session.input_transcript.delta"@) && d is Some {
                &&& final(segments).original@ == old(segments).original@ + d->0
                &&& final(segments).translation@ == old(segments).translation@
                &&& final(segments).last_delta == Some(now)
                &&& final(segments).first_delta == (match old(segments).first_delta {
                    Some(f) => Some(f),
                    None => Some(now),
                })
                &&& event_views(r@) == seq![EventView::Fragment { kind: FragmentKind::Original, text: final(segments).original@, final_fragment: false }]
            } else if t == Some("session.output_transcript.delta"@) && d is Some {
                &&& final(segments).translation@ == old(segments).translation@ + d->0
                &&& final(segments).original@ == old(segments).original@
                &&& final(segments).last_delta == Some(now)
                &&& final(segments).first_delta == (match old(segments).first_delta {
                    Some(f) => Some(f),
                    None => Some(now),
                })
                &&& event_views(r@) == seq![EventView::Fragment { kind: FragmentKind::Translation, text: final(segments).translation@, final_fragment: false }]
            } else if t == Some("session.closed"@) {
                &&& *final(segments) == *old(segments)
                &&& event_views(r@) == seq![EventView::Closed("session.closed"@)]
            } else if t == Some("error"@) {
                &&& *final(segments) == *old(segments)
                &&& event_views(r@) == seq![EventView::Error { message: spec_error_text(text@), retryable: !spec_is_permanent(spec_error_text(text@)) }]
            } else {
                &&& *final(segments) == *old(segments)
                &&& r@.len() == 0
            }
        }),
{
    proof {
        reveal_strlit("session.input_transcript.delta");
        reveal_strlit("session.output_transcript.delta");
        reveal_strlit("session.closed");
        reveal_strlit("error");
        assert("session.input_transcript.delta"@.len() != "session.output_transcript.delta"@.len());
        assert("session.input_transcript.delta"@.len() != "session.closed"@.len());
        assert("session.input_transcript.delta"@.len() != "error"@.len());
        assert("session.output_transcript.delta"@.len() != "session.closed"@.len());
        assert("session.output_transcript.delta"@.len() != "error"@.len());
        assert("session.closed"@.len() != "error"@.len());
    }
    let mut out: Vec<Event> = Vec::new();
    let event_type = match json_str(text, "/type") {
        Some(t) => t,
        None => return out,
    };
    let t = event_type.as_str();
    if str_eq(t, "session.input_transcript.delta") {
        if let Some(delta) = json_str(text, "/delta") {
            push_str(&mut segments.original, delta.as_str());
            segments.note_delta(now);
            out.push(Event::fragment(FragmentKind::Original, segments.original.clone(), false));
            proof {
                assert(event_views(out@) =~= seq![EventView::Fragment { kind: FragmentKind::Original, text: segments.original@, final_fragment: false }]);
            }
        }
    } else if str_eq(t, "session.output_transcript.delta") {
        if let Some(delta) = json_str(text, "/delta") {
            push_str(&mut segments.translation, delta.as_str());
            segments.note_delta(now);
            out.push(Event::fragment(FragmentKind::Translation, segments.translation.clone(), false));
            proof {
                assert(event_views(out@) =~= seq![EventView::Fragment { kind: FragmentKind::Translation, text: segments.translation@, final_fragment: false }]);
            }
        }
    } else if str_eq(t, "session.closed") {
        out.push(Event::Closed(to_owned("session.closed")));
        proof {
            assert(event_views(out@) =~= seq![EventView::Closed("session.closed"@)]);
        }
    } else if str_eq(t, "error") {
        out.push(Event::error(error_text(text)));
        proof {
            assert(event_views(out@) =~= seq![EventView::Error { message: spec_error_text(text@), retryable: !spec_is_permanent(spec_error_text(text@)) }]);
        }
    }
    out
}

/// A committed segment is gone: committing again reports nothing, and the next delta does
/// not inherit the previous text.
pub proof fn law_commit_starts_afresh(original: Seq<char>, translation: Seq<char>)
    ensures
        original.len() == 0 && translation.len() == 0 ==> (if original.len() > 0 {
            seq![EventView::Fragment { kind: FragmentKind::Original, text: original, final_fragment: true }]
        } else {
            Seq::<EventView>::empty()
        }) + (if translation.len() > 0 {
            seq![EventView::Fragment { kind: FragmentKind::Translation, text: translation, final_fragment: true }]
        } else {
            Seq::<EventView>::empty()
        }) == Seq::<EventView>::empty(),
{
    if original.len() == 0 && translation.len() == 0 {
        assert(Seq::<EventView>::empty() + Seq::<EventView>::empty() =~= Seq::<EventView>::empty());
    }
}

} // verus!
