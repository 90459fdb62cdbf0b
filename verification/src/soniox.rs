//! Soniox realtime transcription and translation: the token stream folded into the two
//! segments a route shows, and the errors the server reports.

use crate::json::{json_quoted, json_string, json_array_len, json_array_len_at, json_bool, json_bool_at, json_str, json_str_at, json_u64, json_u64_at};
use crate::qwen::{present, redact, redacted};
use crate::realtime::{Event, EventView, FragmentKind, event_views, spec_is_permanent};
use crate::text::{
    decimal, decimal_string, joined, push_str, str_eq, to_owned, views, blank, is_blank,
};
use vstd::prelude::*;

verus! {

pub struct SonioxRealtimeConfig {
    pub api_key: String,
    pub source_language: String,
    pub target_language: String,
}

/// The key never reaches an error the user sees.
pub fn sanitize_error(cfg: &SonioxRealtimeConfig, message: String) -> (r: String)
    ensures
        r@ == redacted(message@, cfg.api_key@, "[redacted]"@),
{
    redact(message, cfg.api_key.as_str(), "[redacted]")
}

/// The message that opens a session: the key, the real-time model, 16 kHz mono s16le PCM,
/// the source language as a hint, endpoint detection, and one-way translation.
pub open spec fn config_text(cfg: SonioxRealtimeConfig) -> Seq<char> {
    "{\"api_key\":"@ + json_quoted(cfg.api_key@)
        + ",\"model\":\"stt-rt-v5\",\"audio_format\":\"pcm_s16le\",\"sample_rate\":16000,\"num_channels\":1,\"language_hints\":["@
        + json_quoted(cfg.source_language@)
        + "],\"enable_endpoint_detection\":true,\"translation\":{\"type\":\"one_way\",\"target_language\":"@
        + json_quoted(cfg.target_language@) + "}}"@
}

/// The opening message (see `config_text`).
pub fn build_config(cfg: &SonioxRealtimeConfig) -> (r: String)
    ensures
        r@ == config_text(*cfg),
{
    let mut out = to_owned("{\"api_key\":");
    let key = json_string(cfg.api_key.as_str());
    push_str(&mut out, key.as_str());
    push_str(
        &mut out,
        ",\"model\":\"stt-rt-v5\",\"audio_format\":\"pcm_s16le\",\"sample_rate\":16000,\"num_channels\":1,\"language_hints\":[",
    );
    let source = json_string(cfg.source_language.as_str());
    push_str(&mut out, source.as_str());
    push_str(
        &mut out,
        "],\"enable_endpoint_detection\":true,\"translation\":{\"type\":\"one_way\",\"target_language\":",
    );
    let target = json_string(cfg.target_language.as_str());
    push_str(&mut out, target.as_str());
    push_str(&mut out, "}}");
    out
}

/// One stream's text: what the server has settled, and the tail it may still revise.
pub struct Segment {
    pub settled: String,
    pub pending: String,
}

/// The two streams of a session.
pub struct Segments {
    pub original: Segment,
    pub translation: Segment,
}

impl Segment {
    pub fn new() -> (r: Self)
        ensures
            r.settled@.len() == 0,
            r.pending@.len() == 0,
    {
        Segment { settled: String::new(), pending: String::new() }
    }

    pub fn snapshot(&self) -> (r: String)
        ensures
            r@ == self.settled@ + self.pending@,
    {
        let mut out = self.settled.clone();
        push_str(&mut out, self.pending.as_str());
        out
    }

    /// Closes the stream: gives the settled text and leaves nothing behind.
    pub fn take(&mut self) -> (r: String)
        ensures
            r@ == old(self).settled@,
            final(self).settled@.len() == 0,
            final(self).pending@.len() == 0,
    {
        self.pending = String::new();
        let mut out = String::new();
        std::mem::swap(&mut out, &mut self.settled);
        out
    }
}

impl Segments {
    pub fn new() -> (r: Self)
        ensures
            r.original.settled@.len() == 0,
            r.original.pending@.len() == 0,
            r.translation.settled@.len() == 0,
            r.translation.pending@.len() == 0,
    {
        Segments { original: Segment::new(), translation: Segment::new() }
    }
}

/// The streams while a message is folded in, with whether it ended the utterance and
/// whether it touched either stream.
pub struct ScanView {
    pub original_settled: Seq<char>,
    pub original_pending: Seq<char>,
    pub translation_settled: Seq<char>,
    pub translation_pending: Seq<char>,
    pub ended: bool,
    pub touched: bool,
}

/// Where a field of the `i`-th token sits.
pub open spec fn token_ptr(i: nat, name: Seq<char>) -> Seq<char> {
    "/tokens/"@ + decimal(i) + "/"@ + name
}

/// Soniox marks the end of an utterance with a token rather than a message flag.
pub open spec fn end_token() -> Seq<char> {
    "<end>"@
}

/// One token folded in. A token without text is skipped without swallowing the ones after
/// it; the end token ends the utterance; any other text joins its stream, settled or
/// pending as the server marks it.
pub open spec fn apply_token(text: Seq<char>, i: nat, s: ScanView) -> ScanView {
    match json_str_at(text, token_ptr(i, "text"@)) {
        None => s,
        Some(t) => if t == end_token() {
            ScanView { ended: true, ..s }
        } else {
            let translated = json_str_at(text, token_ptr(i, "translation_status"@)) == Some("translation"@);
            let settled = json_bool_at(text, token_ptr(i, "is_final"@)) == Some(true);
            if translated {
                if settled {
                    ScanView { translation_settled: s.translation_settled + t, touched: true, ..s }
                } else {
                    ScanView { translation_pending: s.translation_pending + t, touched: true, ..s }
                }
            } else {
                if settled {
                    ScanView { original_settled: s.original_settled + t, touched: true, ..s }
                } else {
                    ScanView { original_pending: s.original_pending + t, touched: true, ..s }
                }
            }
        },
    }
}

pub open spec fn scan(text: Seq<char>, k: nat, start: ScanView) -> ScanView
    decreases k,
{
    if k == 0 {
        start
    } else {
        apply_token(text, (k - 1) as nat, scan(text, (k - 1) as nat, start))
    }
}

/// The error a message reports, if it carries an error code. A rejected key or a spent
/// balance answers the same way however often it is asked, so those end the session
/// outright; anything else is classified from its text.
pub open spec fn spec_server_error(text: Seq<char>) -> Option<EventView> {
    match json_u64_at(text, "/error_code"@) {
        None => None,
        Some(code) => {
            let details = present(seq![
                json_str_at(text, "/error_type"@),
                json_str_at(text, "/error_message"@),
            ]);
            let message = if details.len() == 0 {
                "Soniox returned error "@ + decimal(code as nat)
            } else {
                joined(details, ": "@)
            };
            Some(if 401 <= code <= 403 {
                EventView::Error { message, retryable: false }
            } else {
                EventView::Error { message, retryable: !spec_is_permanent(message) }
            })
        },
    }
}

pub fn server_error(text: &str) -> (r: Option<Event>)
    ensures
        match r {
            Some(e) => spec_server_error(text@) == Some(e@),
            None => spec_server_error(text@) is None,
        },
{
    let code = match json_u64(text, "/error_code") {
        Some(c) => c,
        None => return None,
    };
    let mut details: Vec<String> = Vec::new();
    let kind = json_str(text, "/error_type");
    let ghost kind_v = crate::json::opt_chars(kind);
    if let Some(k) = kind {
        if !k.as_str().is_empty() {
            details.push(k);
        }
    }
    let ghost after_kind = views(details@);
    let message = json_str(text, "/error_message");
    let ghost message_v = crate::json::opt_chars(message);
    if let Some(m) = message {
        if !m.as_str().is_empty() {
            details.push(m);
        }
    }
    proof {
        let parts = seq![kind_v, message_v];
        assert(parts.drop_last() =~= seq![kind_v]);
        assert(parts.drop_last().drop_last() =~= Seq::<Option<Seq<char>>>::empty());
        reveal_with_fuel(present, 3);
        assert(after_kind =~= present(seq![kind_v]));
        assert(views(details@) =~= present(parts));
    }
    let text_of = if details.len() == 0 {
        let mut m = to_owned("Soniox returned error ");
        let number = decimal_string(code);
        push_str(&mut m, number.as_str());
        m
    } else {
        crate::text::join_strings(&details, ": ")
    };
    if 401 <= code && code <= 403 {
        Some(Event::fatal(text_of))
    } else {
        Some(Event::error(text_of))
    }
}

fn token_pointer(i: usize, name: &str) -> (r: String)
    ensures
        r@ == token_ptr(i as nat, name@),
{
    let mut p = to_owned("/tokens/");
    let number = decimal_string(i as u64);
    push_str(&mut p, number.as_str());
    push_str(&mut p, "/");
    push_str(&mut p, name);
    p
}

pub open spec fn scan_of(s: Segments, ended: bool, touched: bool) -> ScanView {
    ScanView {
        original_settled: s.original.settled@,
        original_pending: s.original.pending@,
        translation_settled: s.translation.settled@,
        translation_pending: s.translation.pending@,
        ended,
        touched,
    }
}

/// The fragment one stream reports once a message has been folded in: its snapshot, or at
/// the end of an utterance its settled text, as long as there is something to read.
pub open spec fn stream_report(kind: FragmentKind, settled: Seq<char>, pending: Seq<char>, ended: bool) -> Seq<EventView> {
    let shown = if ended {
        settled
    } else {
        settled + pending
    };
    if is_blank(shown) {
        Seq::empty()
    } else {
        seq![EventView::Fragment { kind, text: shown, final_fragment: ended }]
    }
}

/// What a message does: the events it gives, whether it ended the session, and the
/// streams it leaves. Pending text is a revision, so each message replaces it rather than
/// adding to it; a message that carried nothing for either stream stays quiet.
pub open spec fn spec_reaction(text: Seq<char>, before: ScanView) -> (Seq<EventView>, bool, ScanView) {
    match spec_server_error(text) {
        Some(e) => (seq![e], true, before),
        None => match json_array_len_at(text, "/tokens"@) {
            None => (Seq::empty(), false, before),
            Some(n) => {
                let start = ScanView {
                    original_pending: Seq::empty(),
                    translation_pending: Seq::empty(),
                    ended: false,
                    touched: before.original_pending.len() > 0 || before.translation_pending.len() > 0,
                    ..before
                };
                let s = scan(text, n as nat, start);
                if !s.touched && !s.ended {
                    (Seq::empty(), false, s)
                } else {
                    (stream_report(FragmentKind::Original, s.original_settled, s.original_pending, s.ended)
                        + stream_report(FragmentKind::Translation, s.translation_settled, s.translation_pending, s.ended),
                    false,
                    if s.ended {
                        ScanView {
                            original_settled: Seq::empty(),
                            original_pending: Seq::empty(),
                            translation_settled: Seq::empty(),
                            translation_pending: Seq::empty(),
                            ..s
                        }
                    } else {
                        s
                    })
                }
            },
        },
    }
}

fn report(kind: FragmentKind, segment: &mut Segment, ended: bool, out: &mut Vec<Event>)
    ensures
        event_views(final(out)@) == event_views(old(out)@) + stream_report(kind, old(segment).settled@, old(segment).pending@, ended),
        ended ==> final(segment).settled@.len() == 0 && final(segment).pending@.len() == 0,
        !ended ==> final(segment).settled@ == old(segment).settled@ && final(segment).pending@ == old(segment).pending@,
{
    let shown = if ended {
        segment.take()
    } else {
        segment.snapshot()
    };
    let ghost before = event_views(out@);
    if !blank(shown.as_str()) {
        let ghost v = shown@;
        out.push(Event::fragment(kind, shown, ended));
        proof {
            assert(event_views(out@) =~= before + seq![EventView::Fragment { kind, text: v, final_fragment: ended }]);
        }
    } else {
        proof {
            assert(before + Seq::<EventView>::empty() =~= before);
        }
    }
}

/// Folds one message in: gives the events for the controller and whether the message ended
/// the session.
pub fn handle_server_message(text: &str, segments: &mut Segments) -> (r: (Vec<Event>, bool))
    ensures
        ({
            let (events, finished, after) = spec_reaction(text@, scan_of(*old(segments), false, false));
            &&& event_views(r.0@) == events
            &&& r.1 == finished
            &&& final(segments).original.settled@ == after.original_settled
            &&& final(segments).original.pending@ == after.original_pending
            &&& final(segments).translation.settled@ == after.translation_settled
            &&& final(segments).translation.pending@ == after.translation_pending
        }),
{
    let mut out: Vec<Event> = Vec::new();
    if let Some(error) = server_error(text) {
        let ghost e = error@;
        out.push(error);
        proof {
            assert(event_views(out@) =~= seq![e]);
        }
        return (out, true);
    }
    let n = match json_array_len(text, "/tokens") {
        Some(n) => n,
        None => {
            proof {
                assert(event_views(out@) =~= Seq::<EventView>::empty());
            }
            return (out, false);
        },
    };
    let had_pending = !segments.original.pending.as_str().is_empty()
        || !segments.translation.pending.as_str().is_empty();
    segments.original.pending = String::new();
    segments.translation.pending = String::new();
    let mut ended = false;
    let mut touched = had_pending;
    let ghost start = scan_of(*segments, false, had_pending);
    let mut i: usize = 0;
    while i < n
        invariant
            0 <= i <= n,
            scan_of(*segments, ended, touched) == scan(text@, i as nat, start),
        decreases n - i,
    {
        let pointer = token_pointer(i, "text");
        match json_str(text, pointer.as_str()) {
            None => {},
            Some(t) => {
                proof {
                    reveal_strlit("<end>");
                }
                if str_eq(t.as_str(), "<end>") {
                    ended = true;
                } else {
                    touched = true;
                    let status_pointer = token_pointer(i, "translation_status");
                    let translated = match json_str(text, status_pointer.as_str()) {
                        Some(status) => str_eq(status.as_str(), "translation"),
                        None => false,
                    };
                    let final_pointer = token_pointer(i, "is_final");
                    let settled = json_bool(text, final_pointer.as_str()) == Some(true);
                    proof {
                        reveal_strlit("translation");
                    }
                    if translated {
                        if settled {
                            push_str(&mut segments.translation.settled, t.as_str());
                        } else {
                            push_str(&mut segments.translation.pending, t.as_str());
                        }
                    } else {
                        if settled {
                            push_str(&mut segments.original.settled, t.as_str());
                        } else {
                            push_str(&mut segments.original.pending, t.as_str());
                        }
                    }
                }
            },
        }
        i = i + 1;
    }
    if !touched && !ended {
        proof {
            assert(event_views(out@) =~= Seq::<EventView>::empty());
        }
        return (out, false);
    }
    proof {
        assert(event_views(out@) =~= Seq::<EventView>::empty());
    }
    report(FragmentKind::Original, &mut segments.original, ended, &mut out);
    report(FragmentKind::Translation, &mut segments.translation, ended, &mut out);
    (out, false)
}

/// The end of an utterance closes both streams and leaves nothing behind for the next one.
pub proof fn law_an_end_token_resets_both_streams(text: Seq<char>, before: ScanView)
    requires
        spec_server_error(text) is None,
        json_array_len_at(text, "/tokens"@) is Some,
        ({
            let n = json_array_len_at(text, "/tokens"@)->0;
            let start = ScanView {
                original_pending: Seq::empty(),
                translation_pending: Seq::empty(),
                ended: false,
                touched: before.original_pending.len() > 0 || before.translation_pending.len() > 0,
                ..before
            };
            scan(text, n as nat, start).ended
        }),
    ensures
        ({
            let after = spec_reaction(text, before).2;
            after.original_settled.len() == 0 && after.original_pending.len() == 0
                && after.translation_settled.len() == 0 && after.translation_pending.len() == 0
        }),
{
}

} // verus!
