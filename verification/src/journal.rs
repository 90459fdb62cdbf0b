//! The running record of a session: every turn with the session time it arrived at, turned
//! into an archive record whenever there is something to keep.

use crate::config::{AppConfig, ConfigView, RouteConfig, RouteView};
use crate::session_store::{
    elapsed_label, render_markdown, segment_views, session_route_views, spec_elapsed_label,
    Chunk, ExportMode, Segment, SegmentView, SessionData, SessionRoute, SessionRouteView,
};
use crate::text::{joined, str_eq, to_owned, views};
use crate::timestamps::{compact_stamp, compact_stamp_of, local_minutes, now_millis, rfc3339_millis, rfc3339_of};
use crate::transcript::{TranscriptTurn, TurnView};
use vstd::prelude::*;

verus! {

/// A turn as the journal keeps it: the turn and the session time, in milliseconds, it
/// arrived at.
pub struct JournalTurn {
    pub turn: TranscriptTurn,
    pub elapsed_ms: u64,
}

pub struct Journal {
    id: String,
    started_at: i64,
    ended_at: Option<i64>,
    config: AppConfig,
    turns: Vec<JournalTurn>,
    elapsed_ms: u64,
}

pub struct JournalView {
    pub id: Seq<char>,
    pub started_at: int,
    pub ended_at: Option<int>,
    pub config: ConfigView,
    pub turns: Seq<(TurnView, u64)>,
    pub elapsed_ms: u64,
}

pub open spec fn journal_turn_views(turns: Seq<JournalTurn>) -> Seq<(TurnView, u64)> {
    turns.map_values(|t: JournalTurn| (t.turn@, t.elapsed_ms))
}

/// The text a timestamp conversion gives, or nothing where it has none.
pub open spec fn or_empty(o: Option<Seq<char>>) -> Seq<char> {
    match o {
        Some(s) => s,
        None => Seq::empty(),
    }
}

pub open spec fn stamp_of(at: Option<int>) -> Option<Seq<char>> {
    match at {
        Some(t) => Some(or_empty(rfc3339_of(t))),
        None => None,
    }
}

/// The record of one enabled route.
pub open spec fn route_record(id: Seq<char>, r: RouteView) -> SessionRouteView {
    SessionRouteView {
        id,
        input: r.input,
        engine: r.engine,
        model: r.model,
        source_lang: r.source_language,
        target_lang: r.target_language,
    }
}

/// The enabled routes of a configuration, system first.
pub open spec fn route_records(c: ConfigView) -> Seq<SessionRouteView> {
    (if c.system_route.enabled {
        seq![route_record("system"@, c.system_route)]
    } else {
        Seq::empty()
    }) + (if c.microphone_route.enabled {
        seq![route_record("microphone"@, c.microphone_route)]
    } else {
        Seq::empty()
    })
}

/// Each engine once, in order of first appearance.
pub open spec fn unique(s: Seq<Seq<char>>) -> Seq<Seq<char>>
    decreases s.len(),
{
    if s.len() == 0 {
        Seq::empty()
    } else {
        let rest = unique(s.drop_last());
        if rest.contains(s.last()) {
            rest
        } else {
            rest.push(s.last())
        }
    }
}

pub open spec fn engines_of(routes: Seq<SessionRouteView>) -> Seq<Seq<char>> {
    routes.map_values(|r: SessionRouteView| r.engine)
}

/// The archived segment of one journal turn.
pub open spec fn segment_of(t: (TurnView, u64)) -> SegmentView {
    SegmentView {
        ts: spec_elapsed_label((t.1 / 1000) as nat),
        src: t.0.original,
        tgt: t.0.translation,
        route_id: t.0.route_id,
        engine: t.0.engine,
        source_lang: t.0.source_language,
        target_lang: t.0.target_language,
    }
}

/// The engines of a session's routes, each once, joined with `+`.
pub fn unique_engines(routes: &Vec<SessionRoute>) -> (r: String)
    ensures
        r@ == joined(unique(engines_of(session_route_views(routes@))), seq!['+']),
{
    let mut engines: Vec<String> = Vec::new();
    let mut i: usize = 0;
    while i < routes.len()
        invariant
            0 <= i <= routes@.len(),
            views(engines@) == unique(engines_of(session_route_views(routes@)).take(i as int)),
        decreases routes@.len() - i,
    {
        let engine = &routes[i].engine;
        let ghost all = engines_of(session_route_views(routes@));
        proof {
            assert(all.take(i + 1).drop_last() =~= all.take(i as int));
            assert(all.take(i + 1).last() == engine@);
        }
        let mut seen = false;
        let mut j: usize = 0;
        while j < engines.len()
            invariant
                0 <= j <= engines@.len(),
                seen == exists|k: int| 0 <= k < j && #[trigger] views(engines@)[k] == engine@,
            decreases engines@.len() - j,
        {
            proof {
                assert(views(engines@)[j as int] == engines@[j as int]@);
            }
            if str_eq(engines[j].as_str(), engine.as_str()) {
                seen = true;
            }
            j = j + 1;
        }
        proof {
            if views(engines@).contains(engine@) {
                let k = choose|k: int| 0 <= k < views(engines@).len() && views(engines@)[k] == engine@;
                assert(views(engines@)[k] == engine@);
            }
        }
        let ghost prior = views(engines@);
        if !seen {
            engines.push(engine.clone());
            proof {
                assert(views(engines@) =~= prior.push(engine@));
            }
        }
        i = i + 1;
    }
    proof {
        assert(engines_of(session_route_views(routes@)).take(routes@.len() as int)
            =~= engines_of(session_route_views(routes@)));
        reveal_strlit("+");
        assert("+"@ =~= seq!['+']);
    }
    crate::text::join_strings(&engines, "+")
}

fn route_record_of(id: &str, route: &RouteConfig) -> (r: SessionRoute)
    ensures
        r@ == route_record(id@, route@),
{
    SessionRoute {
        id: to_owned(id),
        input: route.input.clone(),
        engine: route.engine.clone(),
        model: route.model.clone(),
        source_lang: route.source_language.clone(),
        target_lang: route.target_language.clone(),
    }
}

fn stamp(at: i64) -> (r: String)
    ensures
        r@ == or_empty(rfc3339_of(at as int)),
{
    match rfc3339_millis(at) {
        Some(s) => s,
        None => String::new(),
    }
}

fn opt_stamp(at: Option<i64>) -> (r: Option<String>)
    ensures
        match r {
            Some(s) => stamp_of(match at {
                Some(t) => Some(t as int),
                None => None,
            }) == Some(s@),
            None => at is None,
        },
{
    match at {
        Some(t) => Some(stamp(t)),
        None => None,
    }
}

/// The archive record of a journal under a given title.
pub open spec fn record_of(j: JournalView, title: Seq<char>, r: SessionData) -> bool {
    let routes = route_records(j.config);
    &&& r.schema_version == 1
    &&& r.id@ == j.id
    &&& r.created_at@ == or_empty(rfc3339_of(j.started_at))
    &&& opt_string_view(r.ended_at) == stamp_of(j.ended_at)
    &&& r.title@ == title
    &&& session_route_views(r.routes@) == routes
    &&& r.engine@ == joined(unique(engines_of(routes)), seq!['+'])
    &&& r.source_lang@ == (if routes.len() > 0 {
        routes[0].source_lang
    } else {
        Seq::empty()
    })
    &&& r.target_lang@ == (if routes.len() > 0 {
        routes[0].target_lang
    } else {
        Seq::empty()
    })
    &&& r.duration_sec == j.elapsed_ms / 1000
    &&& r.chunks@.len() == 1
    &&& r.chunks@[0].started_at@ == r.created_at@
    &&& opt_string_view(r.chunks@[0].ended_at) == stamp_of(j.ended_at)
    &&& segment_views(r.chunks@[0].segments@) == j.turns.map_values(|t: (TurnView, u64)| segment_of(t))
}

/// The journal after a turn is added at `elapsed_ms` of session time.
pub open spec fn after_add(v: JournalView, turn: TurnView, elapsed_ms: u64) -> JournalView {
    JournalView { turns: v.turns.push((turn, elapsed_ms)), elapsed_ms, ..v }
}

/// The journal after it is closed at `ended_at` after `elapsed_ms` of session time.
pub open spec fn after_finish(v: JournalView, elapsed_ms: u64, ended_at: int) -> JournalView {
    JournalView { ended_at: Some(ended_at), elapsed_ms, ..v }
}

/// One call on a journal: a turn added, or the journal closed.
pub enum JournalStep {
    Add(TurnView, u64),
    Finish(u64, i64),
}

/// The journal after a run of calls, in order.
pub open spec fn stepped(v: JournalView, steps: Seq<JournalStep>) -> JournalView
    decreases steps.len(),
{
    if steps.len() == 0 {
        v
    } else {
        let w = stepped(v, steps.drop_last());
        match steps.last() {
            JournalStep::Add(t, e) => after_add(w, t, e),
            JournalStep::Finish(e, x) => after_finish(w, e, x as int),
        }
    }
}

/// The turns a run of calls added, in order, each with its session time.
pub open spec fn added_turns(steps: Seq<JournalStep>) -> Seq<(TurnView, u64)>
    decreases steps.len(),
{
    if steps.len() == 0 {
        Seq::empty()
    } else {
        let earlier = added_turns(steps.drop_last());
        match steps.last() {
            JournalStep::Add(t, e) => earlier.push((t, e)),
            JournalStep::Finish(_, _) => earlier,
        }
    }
}

/// The session time the last call of a run passed, or none before the first.
pub open spec fn last_elapsed(steps: Seq<JournalStep>) -> u64 {
    if steps.len() == 0 {
        0
    } else {
        match steps.last() {
            JournalStep::Add(_, e) => e,
            JournalStep::Finish(e, _) => e,
        }
    }
}

proof fn lemma_stepped(v: JournalView, steps: Seq<JournalStep>)
    ensures
        stepped(v, steps).turns == v.turns + added_turns(steps),
        steps.len() > 0 ==> stepped(v, steps).elapsed_ms == last_elapsed(steps),
        steps.len() == 0 ==> stepped(v, steps).elapsed_ms == v.elapsed_ms,
    decreases steps.len(),
{
    if steps.len() == 0 {
        assert(v.turns + Seq::<(TurnView, u64)>::empty() =~= v.turns);
    } else {
        lemma_stepped(v, steps.drop_last());
        match steps.last() {
            JournalStep::Add(t, e) => {
                assert(v.turns + added_turns(steps.drop_last()).push((t, e)) =~= (v.turns + added_turns(
                    steps.drop_last(),
                )).push((t, e)));
            },
            JournalStep::Finish(_, _) => {},
        }
    }
}

/// A fresh journal's record keeps every turn added to it, in order, each labelled with its
/// session time, and its duration is the session time of the last add or close.
pub proof fn law_record_keeps_every_turn(v: JournalView, steps: Seq<JournalStep>, title: Seq<char>, r: SessionData)
    requires
        v.turns.len() == 0,
        v.elapsed_ms == 0,
        record_of(stepped(v, steps), title, r),
    ensures
        r.duration_sec == last_elapsed(steps) / 1000,
        r.chunks@.len() == 1,
        segment_views(r.chunks@[0].segments@) == added_turns(steps).map_values(|t: (TurnView, u64)| segment_of(t)),
{
    lemma_stepped(v, steps);
    assert(v.turns + added_turns(steps) =~= added_turns(steps));
}

impl Journal {
    pub closed spec fn view(&self) -> JournalView {
        JournalView {
            id: self.id@,
            started_at: self.started_at as int,
            ended_at: match self.ended_at {
                Some(t) => Some(t as int),
                None => None,
            },
            config: self.config@,
            turns: journal_turn_views(self.turns@),
            elapsed_ms: self.elapsed_ms,
        }
    }

    /// A journal for a session started at `started_at` (Unix milliseconds) under `config`;
    /// its identifier is the UTC start time to the millisecond.
    pub fn new_at(config: &AppConfig, started_at: i64) -> (r: Self)
        ensures
            r.view().id == or_empty(compact_stamp_of(started_at as int)),
            r.view().started_at == started_at,
            r.view().ended_at is None,
            r.view().config == config@,
            r.view().turns.len() == 0,
            r.view().elapsed_ms == 0,
    {
        let id = match compact_stamp(started_at) {
            Some(s) => s,
            None => String::new(),
        };
        let r = Journal {
            id,
            started_at,
            ended_at: None,
            config: config.duplicate(),
            turns: Vec::new(),
            elapsed_ms: 0,
        };
        assert(journal_turn_views(r.turns@) =~= Seq::<(TurnView, u64)>::empty());
        r
    }

    /// A journal for a session starting now.
    pub fn new(config: &AppConfig) -> (r: Self)
        ensures
            r.view().id == or_empty(compact_stamp_of(r.view().started_at as int)),
            r.view().ended_at is None,
            r.view().config == config@,
            r.view().turns.len() == 0,
            r.view().elapsed_ms == 0,
    {
        Journal::new_at(config, now_millis())
    }

    pub fn add(&mut self, turn: TranscriptTurn, elapsed_ms: u64)
        ensures
            final(self).view() == after_add(old(self).view(), turn@, elapsed_ms),
    {
        self.elapsed_ms = elapsed_ms;
        let ghost t = turn@;
        self.turns.push(JournalTurn { turn, elapsed_ms });
        proof {
            assert(journal_turn_views(self.turns@) =~= journal_turn_views(old(self).turns@).push(
                (t, elapsed_ms),
            ));
        }
    }

    /// Closes the journal at `ended_at` after `elapsed_ms` of session time.
    pub fn finish_at(&mut self, elapsed_ms: u64, ended_at: i64)
        ensures
            final(self).view() == after_finish(old(self).view(), elapsed_ms, ended_at as int),
    {
        self.elapsed_ms = elapsed_ms;
        self.ended_at = Some(ended_at);
    }

    pub fn finish(&mut self, elapsed_ms: u64)
        ensures
            final(self).view().ended_at is Some,
            final(self).view() == (JournalView {
                ended_at: final(self).view().ended_at,
                elapsed_ms,
                ..old(self).view()
            }),
    {
        let now = now_millis();
        self.finish_at(elapsed_ms, now);
    }

    /// The archive record of the journal, with the title it is to carry.
    pub fn data_titled(&self, title: String) -> (r: SessionData)
        ensures
            record_of(self.view(), title@, r),
    {
        let mut routes: Vec<SessionRoute> = Vec::new();
        if self.config.routes.system.enabled {
            routes.push(route_record_of("system", &self.config.routes.system));
        }
        if self.config.routes.microphone.enabled {
            routes.push(route_record_of("microphone", &self.config.routes.microphone));
        }
        proof {
            reveal_strlit("system");
            reveal_strlit("microphone");
            assert(session_route_views(routes@) =~= route_records(self.config@));
        }
        let engine = unique_engines(&routes);
        let (source_lang, target_lang) = if routes.len() > 0 {
            (routes[0].source_lang.clone(), routes[0].target_lang.clone())
        } else {
            (String::new(), String::new())
        };
        let mut segments: Vec<Segment> = Vec::new();
        let mut i: usize = 0;
        while i < self.turns.len()
            invariant
                0 <= i <= self.turns@.len(),
                segment_views(segments@) == journal_turn_views(self.turns@).take(i as int).map_values(
                    |t: (TurnView, u64)| segment_of(t),
                ),
            decreases self.turns@.len() - i,
        {
            let entry = &self.turns[i];
            let segment = Segment {
                ts: elapsed_label(entry.elapsed_ms / 1000),
                src: entry.turn.original.clone(),
                tgt: entry.turn.translation.clone(),
                route_id: entry.turn.route_id.clone(),
                engine: entry.turn.engine.clone(),
                source_lang: entry.turn.source_language.clone(),
                target_lang: entry.turn.target_language.clone(),
            };
            proof {
                assert(journal_turn_views(self.turns@)[i as int] == (entry.turn@, entry.elapsed_ms));
                assert(segment@ == segment_of(journal_turn_views(self.turns@)[i as int]));
            }
            let ghost prior = segments@;
            let ghost seg = segment@;
            segments.push(segment);
            proof {
                let tv = journal_turn_views(self.turns@);
                assert(segment_views(segments@) =~= segment_views(prior).push(seg));
                assert(tv.take(i + 1).map_values(|t: (TurnView, u64)| segment_of(t)) =~= tv.take(
                    i as int,
                ).map_values(|t: (TurnView, u64)| segment_of(t)).push(segment_of(tv[i as int])));
            }
            i = i + 1;
        }
        proof {
            assert(journal_turn_views(self.turns@).take(self.turns@.len() as int)
                =~= journal_turn_views(self.turns@));
        }
        let created = stamp(self.started_at);
        let chunk = Chunk {
            started_at: stamp(self.started_at),
            ended_at: opt_stamp(self.ended_at),
            segments,
        };
        let mut chunks: Vec<Chunk> = Vec::new();
        chunks.push(chunk);
        SessionData {
            schema_version: 1,
            id: self.id.clone(),
            created_at: created,
            ended_at: opt_stamp(self.ended_at),
            title,
            engine,
            source_lang,
            target_lang,
            duration_sec: self.elapsed_ms / 1000,
            routes,
            chunks,
        }
    }

    /// The archive record of the journal, titled with its local start time to the minute.
    pub fn data(&self) -> (r: SessionData)
        ensures
            exists|title: Seq<char>| #[trigger] record_of(self.view(), title, r),
    {
        let title = match local_minutes(self.started_at) {
            Some(t) => t,
            None => String::new(),
        };
        self.data_titled(title)
    }

    /// What the journal leaves in the archive: its identifier, its Markdown and its record,
    /// or nothing while it holds no turn.
    pub fn record(&self) -> (r: Option<(String, String, SessionData)>)
        ensures
            r is None <==> self.view().turns.len() == 0,
            r matches Some(x) ==> x.0@ == self.view().id && (exists|title: Seq<char>|
                #[trigger] record_of(self.view(), title, x.2)) && x.1@ == crate::text::joined(
                crate::session_store::markdown_lines(x.2, ExportMode::Both),
                seq!['\n'],
            ),
    {
        if self.turns.len() == 0 {
            return None;
        }
        let data = self.data();
        let markdown = render_markdown(&data, ExportMode::Both);
        Some((self.id.clone(), markdown, data))
    }

    pub fn elapsed_ms(&self) -> (r: u64)
        ensures
            r == self.view().elapsed_ms,
    {
        self.elapsed_ms
    }
}

pub open spec fn opt_string_view(o: Option<String>) -> Option<Seq<char>> {
    match o {
        Some(s) => Some(s@),
        None => None,
    }
}

} // verus!
