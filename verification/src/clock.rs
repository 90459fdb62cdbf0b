//! The elapsed-time readout of a session: time spent translating, not time spent paused.
//! Instants are milliseconds on one clock; an instant before the start counts as no time.

use crate::timestamps::now_millis;
use vstd::prelude::*;

verus! {

pub struct SessionClock {
    elapsed: u64,
    running_since: Option<u64>,
}

pub struct ClockView {
    pub elapsed: nat,
    pub running_since: Option<nat>,
}

/// Time from `started` to `now`, or none when the clock reads earlier.
pub open spec fn since(now: nat, started: nat) -> nat {
    if now >= started {
        (now - started) as nat
    } else {
        0
    }
}

pub open spec fn started_at(now: nat) -> ClockView {
    ClockView { elapsed: 0, running_since: Some(now) }
}

pub open spec fn paused_at(c: ClockView, now: nat) -> ClockView {
    match c.running_since {
        Some(s) => ClockView { elapsed: c.elapsed + since(now, s), running_since: None },
        None => c,
    }
}

pub open spec fn resumed_at(c: ClockView, now: nat) -> ClockView {
    match c.running_since {
        Some(_) => c,
        None => ClockView { running_since: Some(now), ..c },
    }
}

pub open spec fn elapsed_at(c: ClockView, now: nat) -> nat {
    match c.running_since {
        Some(s) => c.elapsed + since(now, s),
        None => c.elapsed,
    }
}

/// A count of milliseconds as the readout holds it: at most its top.
pub open spec fn saturated(n: nat) -> nat {
    if n > u64::MAX {
        u64::MAX as nat
    } else {
        n
    }
}

/// The current instant on the session clock, in milliseconds; readings before the epoch
/// count as the epoch.
fn clock_now() -> u64 {
    let now = now_millis();
    if now < 0 {
        0
    } else {
        now as u64
    }
}

impl SessionClock {
    pub closed spec fn view(&self) -> ClockView {
        ClockView {
            elapsed: self.elapsed as nat,
            running_since: match self.running_since {
                Some(s) => Some(s as nat),
                None => None,
            },
        }
    }

    pub fn new() -> (r: Self)
        ensures
            r.view() == (ClockView { elapsed: 0, running_since: None }),
    {
        SessionClock { elapsed: 0, running_since: None }
    }

    pub fn start_at(&mut self, now: u64)
        ensures
            final(self).view() == started_at(now as nat),
    {
        self.elapsed = 0;
        self.running_since = Some(now);
    }

    pub fn pause_at(&mut self, now: u64)
        requires
            elapsed_at(old(self).view(), now as nat) <= u64::MAX,
        ensures
            final(self).view() == paused_at(old(self).view(), now as nat),
    {
        if let Some(started) = self.running_since {
            let gone = if now >= started {
                now - started
            } else {
                0
            };
            self.elapsed = self.elapsed + gone;
            self.running_since = None;
        }
    }

    pub fn resume_at(&mut self, now: u64)
        ensures
            final(self).view() == resumed_at(old(self).view(), now as nat),
    {
        if self.running_since.is_none() {
            self.running_since = Some(now);
        }
    }

    pub fn reset(&mut self)
        ensures
            final(self).view() == (ClockView { elapsed: 0, running_since: None }),
    {
        self.elapsed = 0;
        self.running_since = None;
    }

    pub fn elapsed_at(&self, now: u64) -> (r: u64)
        requires
            elapsed_at(self.view(), now as nat) <= u64::MAX,
        ensures
            r as nat == elapsed_at(self.view(), now as nat),
    {
        match self.running_since {
            Some(started) => self.elapsed + if now >= started {
                now - started
            } else {
                0
            },
            None => self.elapsed,
        }
    }

    /// Whether the time up to `now` fits the readout.
    pub fn fits(&self, now: u64) -> (r: bool)
        ensures
            r == (elapsed_at(self.view(), now as nat) <= u64::MAX),
    {
        match self.running_since {
            Some(started) => {
                let gone = if now >= started {
                    now - started
                } else {
                    0
                };
                gone <= u64::MAX - self.elapsed
            },
            None => true,
        }
    }

    pub fn start(&mut self)
        ensures
            exists|now: nat| final(self).view() == started_at(now),
    {
        self.start_at(clock_now());
    }

    /// Stops the clock at the current instant. The time run so far is added to the
    /// readout, which saturates at its top.
    pub fn pause(&mut self)
        ensures
            final(self).view().running_since is None,
            exists|now: nat| final(self).view().elapsed == #[trigger] saturated(elapsed_at(old(self).view(), now)),
            old(self).view().running_since is None ==> final(self).view() == old(self).view(),
    {
        let now = clock_now();
        if self.fits(now) {
            self.pause_at(now);
        } else {
            self.elapsed = u64::MAX;
            self.running_since = None;
        }
        assert(self.view().elapsed == saturated(elapsed_at(old(self).view(), now as nat)));
    }

    pub fn resume(&mut self)
        ensures
            exists|now: nat| final(self).view() == resumed_at(old(self).view(), now),
    {
        self.resume_at(clock_now());
    }

    /// The time translated so far, in milliseconds, saturating at the top of the readout.
    pub fn elapsed(&self) -> (r: u64)
        ensures
            self.view().running_since is None ==> r as nat == self.view().elapsed,
    {
        let now = clock_now();
        if self.fits(now) {
            self.elapsed_at(now)
        } else {
            u64::MAX
        }
    }
}

impl Default for SessionClock {
    fn default() -> (r: Self)
        ensures
            r.view() == (ClockView { elapsed: 0, running_since: None }),
    {
        SessionClock::new()
    }
}

/// Paused time is not counted: a session run from `a` to `b`, paused, and resumed at `d`
/// has translated for `b - a` plus whatever has passed since `d`, and while paused the
/// readout stands still.
pub proof fn law_paused_time_is_excluded(a: nat, b: nat, c: nat, d: nat, e: nat)
    requires
        a <= b <= c,
        d <= e,
    ensures
        elapsed_at(paused_at(started_at(a), b), c) == b - a,
        elapsed_at(resumed_at(paused_at(started_at(a), b), d), e) == (b - a) + (e - d),
{
}

/// Resuming a running clock, or pausing a paused one, changes nothing.
pub proof fn law_pause_and_resume_are_idempotent(c: ClockView, now: nat, later: nat)
    ensures
        resumed_at(resumed_at(c, now), later) == resumed_at(c, now),
        paused_at(paused_at(c, now), later) == paused_at(c, now),
{
}

} // verus!
