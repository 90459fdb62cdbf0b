//! Pairs a route's final originals with their translations into transcript turns, and keeps
//! the draft the overlay shows while a segment is still being spoken.

use crate::config::{RouteConfig, RouteView};
use crate::realtime::FragmentKind;
use crate::text::{trim, trim_str, to_owned};
use crate::timestamps::{now_rfc3339, rfc3339_or_empty};
use std::collections::VecDeque;
use vstd::prelude::*;

verus! {

broadcast use vstd::std_specs::vecdeque::group_vec_dequeue_axioms;

/// The segment still being spoken, on either side.
pub struct TranscriptDraft {
    pub original: String,
    pub translation: String,
}

impl TranscriptDraft {
    pub fn new() -> (r: Self)
        ensures
            r.original@ == Seq::<char>::empty(),
            r.translation@ == Seq::<char>::empty(),
    {
        TranscriptDraft { original: String::new(), translation: String::new() }
    }

    pub fn duplicate(&self) -> (r: Self)
        ensures
            r.original@ == self.original@,
            r.translation@ == self.translation@,
    {
        TranscriptDraft { original: self.original.clone(), translation: self.translation.clone() }
    }
}

/// One finished exchange: what was said and what it became.
pub struct TranscriptTurn {
    /// Always "turn".
    pub kind: String,
    pub route_id: String,
    pub original: String,
    pub translation: String,
    pub timestamp: String,
    pub engine: String,
    pub model: String,
    pub source_language: String,
    pub target_language: String,
}

impl TranscriptTurn {
    pub fn duplicate(&self) -> (r: Self)
        ensures
            r@ == self@,
            r.timestamp@ == self.timestamp@,
    {
        TranscriptTurn {
            kind: self.kind.clone(),
            route_id: self.route_id.clone(),
            original: self.original.clone(),
            translation: self.translation.clone(),
            timestamp: self.timestamp.clone(),
            engine: self.engine.clone(),
            model: self.model.clone(),
            source_language: self.source_language.clone(),
            target_language: self.target_language.clone(),
        }
    }
}

/// A turn by its text, without the moment it was stamped.
pub struct TurnView {
    pub route_id: Seq<char>,
    pub original: Seq<char>,
    pub translation: Seq<char>,
    pub engine: Seq<char>,
    pub model: Seq<char>,
    pub source_language: Seq<char>,
    pub target_language: Seq<char>,
}

impl View for TranscriptTurn {
    type V = TurnView;

    open spec fn view(&self) -> TurnView {
        TurnView {
            route_id: self.route_id@,
            original: self.original@,
            translation: self.translation@,
            engine: self.engine@,
            model: self.model@,
            source_language: self.source_language@,
            target_language: self.target_language@,
        }
    }
}

/// A turn stamped with the RFC 3339 text of the instant it was made.
pub open spec fn stamped(t: TranscriptTurn) -> bool {
    exists|millis: i64| t.timestamp@ == #[trigger] rfc3339_or_empty(millis as int)
}

pub open spec fn all_stamped(turns: Seq<TranscriptTurn>) -> bool {
    forall|i: int| 0 <= i < turns.len() ==> stamped(#[trigger] turns[i])
}

pub open spec fn turn_views(turns: Seq<TranscriptTurn>) -> Seq<TurnView> {
    turns.map_values(|t: TranscriptTurn| t@)
}

/// The turn a route makes of one original and one translation.
pub open spec fn turn_of(
    route_id: Seq<char>,
    route: RouteView,
    original: Seq<char>,
    translation: Seq<char>,
) -> TurnView {
    TurnView {
        route_id,
        original,
        translation,
        engine: route.engine,
        model: route.model,
        source_language: route.source_language,
        target_language: route.target_language,
    }
}

/// The version that follows `v`, wrapping at the top.
pub open spec fn next_version(v: u64) -> u64 {
    if v == u64::MAX {
        0
    } else {
        (v + 1) as u64
    }
}

pub struct AssemblerView {
    pub route_id: Seq<char>,
    pub route: RouteView,
    pub originals: Seq<Seq<char>>,
    pub translations: Seq<Seq<char>>,
    pub draft_original: Seq<char>,
    pub draft_translation: Seq<char>,
    pub flush_version: u64,
}

pub open spec fn text_views(q: Seq<String>) -> Seq<Seq<char>> {
    q.map_values(|s: String| s@)
}

pub struct TurnAssembler {
    route_id: String,
    route: RouteConfig,
    originals: VecDeque<String>,
    translations: VecDeque<String>,
    pub draft: TranscriptDraft,
    flush_version: u64,
}

pub open spec fn min(a: int, b: int) -> int {
    if a < b {
        a
    } else {
        b
    }
}

pub open spec fn max(a: int, b: int) -> int {
    if a < b {
        b
    } else {
        a
    }
}

/// The turns the first `k` waiting originals and translations pair into.
pub open spec fn paired(
    route_id: Seq<char>,
    route: RouteView,
    originals: Seq<Seq<char>>,
    translations: Seq<Seq<char>>,
    k: int,
) -> Seq<TurnView> {
    Seq::new(k as nat, |i: int| turn_of(route_id, route, originals[i], translations[i]))
}

/// What an entry at `i` is, or nothing past the end.
pub open spec fn or_empty(q: Seq<Seq<char>>, i: int) -> Seq<char> {
    if 0 <= i < q.len() {
        q[i]
    } else {
        Seq::empty()
    }
}

/// Every waiting entry as a turn, the shorter side filled with nothing.
pub open spec fn drained(
    route_id: Seq<char>,
    route: RouteView,
    originals: Seq<Seq<char>>,
    translations: Seq<Seq<char>>,
) -> Seq<TurnView> {
    Seq::new(
        max(originals.len() as int, translations.len() as int) as nat,
        |i: int| turn_of(route_id, route, or_empty(originals, i), or_empty(translations, i)),
    )
}

/// What taking in one fragment does: `text` trimmed; an empty fragment changes nothing, a
/// non-final one replaces its side's draft, and a final one joins its side's queue, pairs
/// with the other side in arrival order into `turns`, and asks for a flush (`flush`) while
/// anything is left waiting.
pub open spec fn pushed(
    before: AssemblerView,
    kind: FragmentKind,
    text: Seq<char>,
    final_fragment: bool,
    after: AssemblerView,
    turns: Seq<TranscriptTurn>,
    flush: Option<u64>,
) -> bool {
    let value = trim(text);
    if value.len() == 0 {
        turns.len() == 0 && flush is None && after == before
    } else if !final_fragment {
        &&& turns.len() == 0
        &&& flush is None
        &&& after == (if kind is Original {
            AssemblerView { draft_original: value, ..before }
        } else {
            AssemblerView { draft_translation: value, ..before }
        })
    } else {
        let originals = if kind is Original {
            before.originals.push(value)
        } else {
            before.originals
        };
        let translations = if kind is Translation {
            before.translations.push(value)
        } else {
            before.translations
        };
        let k = min(originals.len() as int, translations.len() as int);
        &&& turn_views(turns) == paired(
            before.route_id,
            before.route,
            originals,
            translations,
            k,
        )
        &&& after.originals == originals.skip(k)
        &&& after.translations == translations.skip(k)
        &&& after.draft_original == (if kind is Original {
            Seq::empty()
        } else {
            before.draft_original
        })
        &&& after.draft_translation == (if kind is Translation {
            Seq::empty()
        } else {
            before.draft_translation
        })
        &&& after.route_id == before.route_id
        &&& after.route == before.route
        &&& after.flush_version == next_version(before.flush_version)
        &&& flush == (if after.originals.len() == 0 && after.translations.len() == 0 {
            None
        } else {
            Some(after.flush_version)
        })
    }
}

impl TurnAssembler {
    pub closed spec fn view(&self) -> AssemblerView {
        AssemblerView {
            route_id: self.route_id@,
            route: self.route@,
            originals: text_views(self.originals@),
            translations: text_views(self.translations@),
            draft_original: self.draft.original@,
            draft_translation: self.draft.translation@,
            flush_version: self.flush_version,
        }
    }

    pub fn new(route_id: &str, route: &RouteConfig) -> (r: Self)
        ensures
            r.view().route_id == route_id@,
            r.view().route == route@,
            r.view().originals.len() == 0,
            r.view().translations.len() == 0,
            r.view().draft_original.len() == 0,
            r.view().draft_translation.len() == 0,
            r.view().flush_version == 0,
    {
        TurnAssembler {
            route_id: to_owned(route_id),
            route: route.duplicate(),
            originals: VecDeque::new(),
            translations: VecDeque::new(),
            draft: TranscriptDraft::new(),
            flush_version: 0,
        }
    }

    /// The segment still being spoken, as it stands.
    pub fn draft(&self) -> (r: TranscriptDraft)
        ensures
            r.original@ == self.view().draft_original,
            r.translation@ == self.view().draft_translation,
    {
        self.draft.duplicate()
    }

    pub open spec fn spec_draft_original(&self) -> Seq<char> {
        self.view().draft_original
    }

    fn turn(&self, original: String, translation: String) -> (r: TranscriptTurn)
        ensures
            r@ == turn_of(self.view().route_id, self.view().route, original@, translation@),
            r.kind@ == "turn"@,
            stamped(r),
    {
        TranscriptTurn {
            kind: to_owned("turn"),
            route_id: self.route_id.clone(),
            original,
            translation,
            timestamp: now_rfc3339(),
            engine: self.route.engine.clone(),
            model: self.route.model.clone(),
            source_language: self.route.source_language.clone(),
            target_language: self.route.target_language.clone(),
        }
    }

    /// Pairs off as many waiting originals and translations as there are of both.
    fn pair(&mut self) -> (r: Vec<TranscriptTurn>)
        ensures
            ({
                let k = min(
                    old(self).view().originals.len() as int,
                    old(self).view().translations.len() as int,
                );
                &&& turn_views(r@) == paired(
                    old(self).view().route_id,
                    old(self).view().route,
                    old(self).view().originals,
                    old(self).view().translations,
                    k,
                )
                &&& final(self).view() == AssemblerView {
                    originals: old(self).view().originals.skip(k),
                    translations: old(self).view().translations.skip(k),
                    ..old(self).view()
                }
            }),
            all_stamped(r@),
    {
        let ghost start = self.view();
        let ghost k = min(start.originals.len() as int, start.translations.len() as int);
        let mut outputs: Vec<TranscriptTurn> = Vec::new();
        let mut taken: usize = 0;
        let total: usize = self.originals.len();
        proof {
            assert(start.originals.skip(0) =~= start.originals);
            assert(start.translations.skip(0) =~= start.translations);
            assert(turn_views(outputs@) =~= paired(
                start.route_id,
                start.route,
                start.originals,
                start.translations,
                0,
            ));
        }
        while self.originals.len() > 0 && self.translations.len() > 0
            invariant
                0 <= taken <= k,
                k == min(start.originals.len() as int, start.translations.len() as int),
                start.originals.len() == total,
                self.view() == (AssemblerView {
                    originals: start.originals.skip(taken as int),
                    translations: start.translations.skip(taken as int),
                    ..start
                }),
                turn_views(outputs@) == paired(
                    start.route_id,
                    start.route,
                    start.originals,
                    start.translations,
                    taken as int,
                ),
                all_stamped(outputs@),
            decreases self.originals@.len(),
        {
            let ghost qo = self.originals@;
            let ghost qt = self.translations@;
            proof {
                assert(text_views(qo) == start.originals.skip(taken as int));
                assert(text_views(qt) == start.translations.skip(taken as int));
                assert(text_views(qo)[0] == qo[0]@);
                assert(text_views(qt)[0] == qt[0]@);
                assert(start.originals.skip(taken as int)[0] == start.originals[taken as int]);
                assert(start.translations.skip(taken as int)[0] == start.translations[taken as int]);
            }
            let original = match self.originals.pop_front() {
                Some(text) => text,
                None => String::new(),
            };
            let translation = match self.translations.pop_front() {
                Some(text) => text,
                None => String::new(),
            };
            proof {
                assert(original@ == start.originals[taken as int]);
                assert(translation@ == start.translations[taken as int]);
                assert(text_views(self.originals@) =~= text_views(qo).skip(1));
                assert(text_views(self.translations@) =~= text_views(qt).skip(1));
                assert(start.originals.skip(taken as int).skip(1) =~= start.originals.skip(taken + 1));
                assert(start.translations.skip(taken as int).skip(1) =~= start.translations.skip(
                    taken + 1,
                ));
            }
            let turn = self.turn(original, translation);
            let ghost prior = turn_views(outputs@);
            proof {
                assert(turn@ == turn_of(
                    start.route_id,
                    start.route,
                    start.originals[taken as int],
                    start.translations[taken as int],
                ));
                assert(taken < start.originals.len());
            }
            let ghost prior_turns = outputs@;
            outputs.push(turn);
            proof {
                assert forall|i: int| 0 <= i < outputs@.len() implies stamped(#[trigger] outputs@[i]) by {
                    if i < prior_turns.len() {
                        assert(outputs@[i] == prior_turns[i]);
                    }
                }
                assert(turn_views(outputs@) =~= prior.push(turn@));
                assert(turn_views(outputs@) =~= paired(
                    start.route_id,
                    start.route,
                    start.originals,
                    start.translations,
                    taken + 1,
                ));
            }
            taken = taken + 1;
        }
        proof {
            assert(text_views(self.originals@).len() == start.originals.len() - taken);
            assert(text_views(self.translations@).len() == start.translations.len() - taken);
            assert(taken == k);
        }
        outputs
    }

    /// Takes in one fragment. Fragments are snapshots, so the newest replaces the draft;
    /// a final one joins its side's queue and pairs with the other side in arrival order.
    /// Returns the finished turns and, while something is left waiting, the flush version
    /// that a delayed flush must quote.
    pub fn push(&mut self, kind: FragmentKind, text: String, final_fragment: bool) -> (r: (
        Vec<TranscriptTurn>,
        Option<u64>,
    ))
        ensures
            pushed(old(self).view(), kind, text@, final_fragment, final(self).view(), r.0@, r.1),
            all_stamped(r.0@),
    {
        let value = trim_str(text.as_str());
        if value.as_str().is_empty() {
            return (Vec::new(), None);
        }
        match kind {
            FragmentKind::Original => self.draft.original = value.clone(),
            FragmentKind::Translation => self.draft.translation = value.clone(),
        }
        if !final_fragment {
            return (Vec::new(), None);
        }
        match kind {
            FragmentKind::Original => {
                self.originals.push_back(value);
                self.draft.original = String::new();
                proof {
                    assert(text_views(self.originals@) =~= old(self).view().originals.push(
                        trim(text@),
                    ));
                }
            },
            FragmentKind::Translation => {
                self.translations.push_back(value);
                self.draft.translation = String::new();
                proof {
                    assert(text_views(self.translations@) =~= old(
                        self,
                    ).view().translations.push(trim(text@)));
                }
            },
        }
        let outputs = self.pair();
        self.flush_version = if self.flush_version == u64::MAX {
            0
        } else {
            self.flush_version + 1
        };
        if self.originals.len() == 0 && self.translations.len() == 0 {
            (outputs, None)
        } else {
            (outputs, Some(self.flush_version))
        }
    }

    /// A delayed flush: only the version it was scheduled for may fire, so one overtaken
    /// by a newer fragment does nothing.
    pub fn flush(&mut self, version: u64) -> (r: Vec<TranscriptTurn>)
        ensures
            version != old(self).view().flush_version ==> r@.len() == 0 && final(self).view()
                == old(self).view(),
            version == old(self).view().flush_version ==> flushed(old(self).view(), final(self).view(), r@),
            all_stamped(r@),
    {
        if version != self.flush_version {
            return Vec::new();
        }
        self.flush_all()
    }

    /// Closes out everything waiting, unpaired entries against nothing, and clears the
    /// draft.
    pub fn flush_all(&mut self) -> (r: Vec<TranscriptTurn>)
        ensures
            flushed(old(self).view(), final(self).view(), r@),
            all_stamped(r@),
    {
        self.flush_version = if self.flush_version == u64::MAX {
            0
        } else {
            self.flush_version + 1
        };
        let ghost start = self.view();
        let n: usize = if self.originals.len() < self.translations.len() {
            self.translations.len()
        } else {
            self.originals.len()
        };
        let mut outputs: Vec<TranscriptTurn> = Vec::new();
        let mut taken: usize = 0;
        while taken < n
            invariant
                0 <= taken <= n,
                n == max(start.originals.len() as int, start.translations.len() as int),
                text_views(self.originals@) == start.originals.skip(
                    min(taken as int, start.originals.len() as int),
                ),
                text_views(self.translations@) == start.translations.skip(
                    min(taken as int, start.translations.len() as int),
                ),
                self.route_id@ == start.route_id,
                self.route@ == start.route,
                self.flush_version == start.flush_version,
                turn_views(outputs@) == drained(
                    start.route_id,
                    start.route,
                    start.originals,
                    start.translations,
                ).take(taken as int),
                all_stamped(outputs@),
            decreases n - taken,
        {
            let ghost qo = self.originals@;
            let ghost qt = self.translations@;
            proof {
                assert(qo.len() == text_views(qo).len());
                assert(qt.len() == text_views(qt).len());
                if taken < start.originals.len() {
                    assert(text_views(qo).len() > 0);
                    assert(text_views(qo)[0] == qo[0]@);
                    assert(start.originals.skip(taken as int)[0] == start.originals[taken as int]);
                }
                if taken < start.translations.len() {
                    assert(text_views(qt).len() > 0);
                    assert(text_views(qt)[0] == qt[0]@);
                    assert(start.translations.skip(taken as int)[0] == start.translations[taken as int]);
                }
            }
            let original = match self.originals.pop_front() {
                Some(text) => text,
                None => String::new(),
            };
            let translation = match self.translations.pop_front() {
                Some(text) => text,
                None => String::new(),
            };
            proof {
                assert(original@ == or_empty(start.originals, taken as int));
                assert(translation@ == or_empty(start.translations, taken as int));
                if taken < start.originals.len() {
                    assert(text_views(self.originals@) =~= text_views(qo).skip(1));
                    assert(start.originals.skip(taken as int).skip(1) =~= start.originals.skip(
                        taken + 1,
                    ));
                }
                assert(text_views(self.originals@) =~= start.originals.skip(
                    min(taken + 1, start.originals.len() as int),
                ));
                if taken < start.translations.len() {
                    assert(text_views(self.translations@) =~= text_views(qt).skip(1));
                    assert(start.translations.skip(taken as int).skip(1) =~= start.translations.skip(
                        taken + 1,
                    ));
                }
                assert(text_views(self.translations@) =~= start.translations.skip(
                    min(taken + 1, start.translations.len() as int),
                ));
            }
            let turn = self.turn(original, translation);
            let ghost prior = turn_views(outputs@);
            proof {
                assert(turn@ == turn_of(
                    start.route_id,
                    start.route,
                    or_empty(start.originals, taken as int),
                    or_empty(start.translations, taken as int),
                ));
            }
            let ghost prior_turns = outputs@;
            outputs.push(turn);
            proof {
                assert forall|i: int| 0 <= i < outputs@.len() implies stamped(#[trigger] outputs@[i]) by {
                    if i < prior_turns.len() {
                        assert(outputs@[i] == prior_turns[i]);
                    }
                }
                assert(turn_views(outputs@) =~= prior.push(turn@));
                assert(turn_views(outputs@) =~= drained(
                    start.route_id,
                    start.route,
                    start.originals,
                    start.translations,
                ).take(taken + 1));
            }
            taken = taken + 1;
        }
        proof {
            assert(drained(start.route_id, start.route, start.originals, start.translations).take(
                n as int,
            ) =~= drained(start.route_id, start.route, start.originals, start.translations));
        }
        self.draft = TranscriptDraft::new();
        proof {
            assert(text_views(self.originals@) =~= Seq::<Seq<char>>::empty());
            assert(text_views(self.translations@) =~= Seq::<Seq<char>>::empty());
        }
        outputs
    }
}

/// What closing out an assembler does: every waiting entry leaves as a turn, in order,
/// and nothing is left behind.
pub open spec fn flushed(before: AssemblerView, after: AssemblerView, turns: Seq<TranscriptTurn>) -> bool {
    &&& turn_views(turns) == drained(before.route_id, before.route, before.originals, before.translations)
    &&& after == AssemblerView {
        originals: Seq::empty(),
        translations: Seq::empty(),
        draft_original: Seq::empty(),
        draft_translation: Seq::empty(),
        flush_version: next_version(before.flush_version),
        ..before
    }
}

/// Pairing loses and reorders nothing: the originals of the turns it makes, followed by the
/// originals still waiting, are the originals that were waiting, in arrival order; likewise
/// for translations.
pub proof fn law_pairing_keeps_arrival_order(
    route_id: Seq<char>,
    route: RouteView,
    originals: Seq<Seq<char>>,
    translations: Seq<Seq<char>>,
)
    ensures
        ({
            let k = min(originals.len() as int, translations.len() as int);
            let turns = paired(route_id, route, originals, translations, k);
            &&& turns.map_values(|t: TurnView| t.original) + originals.skip(k) == originals
            &&& turns.map_values(|t: TurnView| t.translation) + translations.skip(k) == translations
        }),
{
    let k = min(originals.len() as int, translations.len() as int);
    let turns = paired(route_id, route, originals, translations, k);
    assert(turns.map_values(|t: TurnView| t.original) + originals.skip(k) =~= originals);
    assert(turns.map_values(|t: TurnView| t.translation) + translations.skip(k) =~= translations);
}

/// After pairing, at most one side is still waiting: an original never waits while a
/// translation it could pair with is queued.
pub proof fn law_one_side_waits(originals: Seq<Seq<char>>, translations: Seq<Seq<char>>)
    ensures
        ({
            let k = min(originals.len() as int, translations.len() as int);
            originals.skip(k).len() == 0 || translations.skip(k).len() == 0
        }),
{
}

/// Closing out keeps every waiting entry exactly once, in order, whichever side is longer.
pub proof fn law_flush_keeps_everything(
    route_id: Seq<char>,
    route: RouteView,
    originals: Seq<Seq<char>>,
    translations: Seq<Seq<char>>,
    i: int,
)
    requires
        0 <= i < originals.len(),
    ensures
        drained(route_id, route, originals, translations)[i].original == originals[i],
        drained(route_id, route, originals, translations).len() >= originals.len(),
{
}

} // verus!
