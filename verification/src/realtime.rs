//! What every translator reports, whatever its wire protocol, and the registry of open
//! connections behind the opaque ids the controller holds.

use crate::text::{contains_seq, contains_str, lowercase, to_lowercase};
use crate::translators::str_views;
use vstd::prelude::*;

verus! {

#[derive(Clone, Copy, Debug, PartialEq, Eq, Structural)]
pub enum FragmentKind {
    Original,
    Translation,
}

/// A provider's report. `text` of a fragment is always the whole segment so far, never a
/// delta; `retryable` is false for anything a reconnect cannot fix.
pub enum Event {
    Ready,
    Fragment { kind: FragmentKind, text: String, final_fragment: bool },
    Error { message: String, retryable: bool },
    Closed(String),
}

/// An event with its text taken by its characters.
pub enum EventView {
    Ready,
    Fragment { kind: FragmentKind, text: Seq<char>, final_fragment: bool },
    Error { message: Seq<char>, retryable: bool },
    Closed(Seq<char>),
}

impl View for Event {
    type V = EventView;

    open spec fn view(&self) -> EventView {
        match self {
            Event::Ready => EventView::Ready,
            Event::Fragment { kind, text, final_fragment } => EventView::Fragment {
                kind: *kind,
                text: text@,
                final_fragment: *final_fragment,
            },
            Event::Error { message, retryable } => EventView::Error {
                message: message@,
                retryable: *retryable,
            },
            Event::Closed(reason) => EventView::Closed(reason@),
        }
    }
}

pub open spec fn event_views(events: Seq<Event>) -> Seq<EventView> {
    events.map_values(|e: Event| e@)
}

/// Markers of a failure that clears on its own accord only by changing the credential: a
/// rejected or missing key, or a refused account.
pub open spec fn permanent_markers() -> Seq<Seq<char>> {
    seq![
        "401"@, "402"@, "403"@, "unauthorized"@, "unauthorised"@, "invalid api key"@,
        "invalid_api_key"@, "authentication"@, "access denied"@, "forbidden"@,
    ]
}

/// Rate limits, outages and quotas all clear on their own; a rejected credential does not.
pub open spec fn spec_is_permanent(message: Seq<char>) -> bool {
    exists|i: int|
        0 <= i < permanent_markers().len() && contains_seq(
            lowercase(message),
            #[trigger] permanent_markers()[i],
        )
}

pub fn is_permanent(message: &str) -> (r: bool)
    ensures
        r == spec_is_permanent(message@),
{
    let lowered = to_lowercase(message);
    let markers = vec![
        "401", "402", "403", "unauthorized", "unauthorised", "invalid api key", "invalid_api_key",
        "authentication", "access denied", "forbidden",
    ];
    proof {
        assert(str_views(markers@) =~= permanent_markers());
    }
    let mut i: usize = 0;
    while i < markers.len()
        invariant
            0 <= i <= markers@.len(),
            str_views(markers@) == permanent_markers(),
            lowered@ == lowercase(message@),
            forall|j: int| 0 <= j < i ==> !contains_seq(lowercase(message@), #[trigger] permanent_markers()[j]),
        decreases markers@.len() - i,
    {
        if contains_str(lowered.as_str(), markers[i]) {
            proof {
                assert(str_views(markers@)[i as int] == markers@[i as int]@);
            }
            return true;
        }
        proof {
            assert(str_views(markers@)[i as int] == markers@[i as int]@);
        }
        i = i + 1;
    }
    false
}

impl Event {
    /// Classifies from the text, for providers whose wire errors carry no usable code.
    pub fn error(message: String) -> (r: Event)
        ensures
            r@ == (EventView::Error { message: message@, retryable: !spec_is_permanent(message@) }),
    {
        let retryable = !is_permanent(message.as_str());
        Event::Error { message, retryable }
    }

    /// For a provider that knows from its own error shape that retrying is pointless.
    pub fn fatal(message: String) -> (r: Event)
        ensures
            r@ == (EventView::Error { message: message@, retryable: false }),
    {
        Event::Error { message, retryable: false }
    }

    pub fn fragment(kind: FragmentKind, text: String, final_fragment: bool) -> (r: Event)
        ensures
            r@ == (EventView::Fragment { kind, text: text@, final_fragment }),
    {
        Event::Fragment { kind, text, final_fragment }
    }
}

} // verus!
