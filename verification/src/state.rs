use vstd::prelude::*;

verus! {

/// The session as the user sees it.
#[derive(Clone, Copy, Debug, PartialEq, Eq, Structural)]
pub enum TranslationState {
    Stopped,
    Starting,
    Running,
    Paused,
    Failed,
}

/// What a session-state transition asks of the elapsed-time clock.
#[derive(Clone, Copy, Debug, PartialEq, Eq, Structural)]
pub enum ClockChange {
    /// The clock is left as it is.
    Untouched,
    Hold,
    Continue,
}

/// One route's connection state.
#[derive(Clone, Copy, Debug, PartialEq, Eq, Structural)]
pub enum RouteState {
    Stopped,
    Connecting,
    /// Rebuilding after a settings change while the previous session still runs.
    Reconfiguring,
    Reconnecting,
    Live,
    Failed,
}

/// A session the user considers open, whether or not audio is flowing yet.
pub open spec fn spec_is_active(s: TranslationState) -> bool {
    s is Starting || s is Running || s is Paused
}

/// Whether the elapsed-time readout still has to be refreshed.
pub open spec fn spec_is_timed(s: TranslationState) -> bool {
    !(s is Stopped || s is Paused)
}

pub open spec fn spec_clock_change(from: TranslationState, to: TranslationState) -> ClockChange {
    if from == to {
        ClockChange::Untouched
    } else if to is Failed {
        ClockChange::Hold
    } else if from is Failed && spec_is_timed(to) {
        ClockChange::Continue
    } else {
        ClockChange::Untouched
    }
}

pub open spec fn carries(state: RouteState) -> bool {
    state is Live || state is Reconfiguring
}

pub open spec fn dialling(state: RouteState) -> bool {
    state is Connecting || state is Reconnecting
}

/// The session state that a set of open routes folds into.
pub open spec fn spec_aggregated(s: TranslationState, routes: Seq<RouteState>) -> TranslationState {
    if s is Paused || routes.len() == 0 {
        s
    } else if exists|i: int| 0 <= i < routes.len() && carries(#[trigger] routes[i]) {
        TranslationState::Running
    } else if exists|i: int| 0 <= i < routes.len() && dialling(#[trigger] routes[i]) {
        TranslationState::Starting
    } else if forall|i: int| 0 <= i < routes.len() ==> #[trigger] routes[i] == RouteState::Failed {
        TranslationState::Failed
    } else {
        s
    }
}

impl TranslationState {
    /// A session the user considers open, whether or not audio is flowing yet.
    pub fn is_active(self) -> (r: bool)
        ensures
            r == spec_is_active(self),
    {
        match self {
            TranslationState::Starting | TranslationState::Running | TranslationState::Paused => true,
            _ => false,
        }
    }

    /// Whether audio is being translated right now. Narrower than `is_active`: a paused
    /// session is still a session, but nothing is being captured or billed.
    pub fn is_translating(self) -> (r: bool)
        ensures
            r == (self is Running),
    {
        match self {
            TranslationState::Running => true,
            _ => false,
        }
    }

    /// Whether the elapsed-time readout still has to be refreshed. Deliberately wider than
    /// `is_active`: a session whose routes have all failed can still come back.
    pub fn is_timed(self) -> (r: bool)
        ensures
            r == spec_is_timed(self),
    {
        match self {
            TranslationState::Stopped | TranslationState::Paused => false,
            _ => true,
        }
    }

    /// Time with every route down is not translation time, but the session is not over
    /// either, so the clock is held rather than cleared and a recovery carries on from
    /// where it stopped.
    pub fn clock_change(self, next: TranslationState) -> (r: ClockChange)
        ensures
            r == spec_clock_change(self, next),
    {
        if self == next {
            ClockChange::Untouched
        } else if next == TranslationState::Failed {
            ClockChange::Hold
        } else if self == TranslationState::Failed && next.is_timed() {
            ClockChange::Continue
        } else {
            ClockChange::Untouched
        }
    }

    /// Folds the open routes into the session state. Pausing is the user's own decision, so
    /// no route may override it, and a session with no routes yet keeps the state it has.
    pub fn aggregated(self, routes: &[RouteState]) -> (r: TranslationState)
        ensures
            r == spec_aggregated(self, routes@),
    {
        if self == TranslationState::Paused || routes.len() == 0 {
            return self;
        }
        let mut any_carries = false;
        let mut any_dialling = false;
        let mut all_failed = true;
        let mut i: usize = 0;
        while i < routes.len()
            invariant
                0 <= i <= routes@.len(),
                any_carries == (exists|j: int| 0 <= j < i && carries(#[trigger] routes@[j])),
                any_dialling == (exists|j: int| 0 <= j < i && dialling(#[trigger] routes@[j])),
                all_failed == (forall|j: int| 0 <= j < i ==> #[trigger] routes@[j]
                    == RouteState::Failed),
            decreases routes@.len() - i,
        {
            let state = routes[i];
            match state {
                RouteState::Live | RouteState::Reconfiguring => {
                    any_carries = true;
                },
                RouteState::Connecting | RouteState::Reconnecting => {
                    any_dialling = true;
                },
                _ => {},
            }
            if state != RouteState::Failed {
                all_failed = false;
            }
            proof {
                assert(routes@[i as int] == state);
            }
            i = i + 1;
        }
        if any_carries {
            TranslationState::Running
        } else if any_dialling {
            TranslationState::Starting
        } else if all_failed {
            TranslationState::Failed
        } else {
            self
        }
    }
}

/// Pausing is the user's decision: no set of routes moves a paused session.
pub proof fn law_paused_ignores_routes(routes: Seq<RouteState>)
    ensures
        spec_aggregated(TranslationState::Paused, routes) == TranslationState::Paused,
{
}

/// One route that carries audio keeps the whole session running, whatever the others do.
pub proof fn law_one_working_route_carries(s: TranslationState, routes: Seq<RouteState>, i: int)
    requires
        !(s is Paused),
        0 <= i < routes.len(),
        carries(routes[i]),
    ensures
        spec_aggregated(s, routes) == TranslationState::Running,
{
}

/// A session fails only when every one of its open routes has failed.
pub proof fn law_failed_only_when_all_fail(s: TranslationState, routes: Seq<RouteState>)
    requires
        !(s is Paused),
        !(s is Failed),
        routes.len() > 0,
    ensures
        (spec_aggregated(s, routes) == TranslationState::Failed) <==> (forall|i: int|
            0 <= i < routes.len() ==> #[trigger] routes[i] == RouteState::Failed),
{
    if spec_aggregated(s, routes) == TranslationState::Failed {
        assert forall|i: int| 0 <= i < routes.len() implies #[trigger] routes[i]
            == RouteState::Failed by {
            if routes[i] != RouteState::Failed {
                assert(!carries(routes[i]));
                assert(!dialling(routes[i]));
            }
        }
    }
}

/// Going into failure holds the clock, and coming out of it into a timed state carries it
/// on: a recovering session keeps the time it had.
pub proof fn law_failure_holds_then_continues(from: TranslationState, to: TranslationState)
    ensures
        from != TranslationState::Failed ==> spec_clock_change(from, TranslationState::Failed)
            == ClockChange::Hold,
        (to != TranslationState::Failed && spec_is_timed(to)) ==> spec_clock_change(
            TranslationState::Failed,
            to,
        ) == ClockChange::Continue,
{
}

} // verus!
