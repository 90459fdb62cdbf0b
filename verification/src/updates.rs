//! In-app updates: the throttle around a check, what a check's answer does, and the one
//! state the settings footer and the tray badge both read. The round trips themselves
//! (the manifest, the download, the install) run in the shell.

use crate::timestamps::now_seconds;
use crate::text::str_eq;
use vstd::prelude::*;

verus! {

/// A result stands this long, in seconds, before another round trip is worth it.
pub const CHECK_INTERVAL_SECONDS: i64 = 86400;

#[derive(Clone, Copy, Debug, PartialEq, Eq, Structural)]
pub enum Stage {
    /// Nothing known yet: no check has finished this run.
    Idle,
    Checking,
    UpToDate,
    Available,
    Downloading,
    /// Downloaded and verified; the swap happens on restart.
    Ready,
    Failed,
}

impl Default for Stage {
    fn default() -> (r: Self)
        ensures
            r == Stage::Idle,
    {
        Stage::Idle
    }
}

/// What the footer shows.
pub struct UpdateStatus {
    pub stage: Stage,
    pub current_version: String,
    pub version: Option<String>,
    /// Percent, while downloading and only once the response declared a length.
    pub progress: Option<u8>,
    pub error: Option<String>,
    pub auto_check: bool,
    /// False when the running copy came from a package the updater cannot replace in
    /// place, which leaves the download page as the only route.
    pub installable: bool,
}

/// The stored update preferences.
pub struct Preferences {
    pub auto_check: bool,
    /// Unix seconds, kept so a relaunch does not start the interval over.
    pub last_checked_at: Option<i64>,
}

impl Default for Preferences {
    fn default() -> (r: Self)
        ensures
            r.auto_check,
            r.last_checked_at is None,
    {
        Preferences { auto_check: true, last_checked_at: None }
    }
}

/// The update state the footer and badge read, apart from the release the last check
/// found, which the shell holds.
pub struct UpdateFlow {
    pub stage: Stage,
    pub progress: Option<u8>,
    pub error: Option<String>,
    /// The verified payload, held between the download and the restart that applies it.
    pub payload: Option<Vec<u8>>,
    pub preferences: Preferences,
}

/// Work in flight, which nothing may restart.
pub open spec fn spec_busy(stage: Stage) -> bool {
    stage is Checking || stage is Downloading
}

pub fn busy(stage: Stage) -> (r: bool)
    ensures
        r == spec_busy(stage),
{
    match stage {
        Stage::Checking | Stage::Downloading => true,
        _ => false,
    }
}

/// An update in hand: what the badge shows, and what a background check leaves alone.
pub open spec fn spec_found(stage: Stage) -> bool {
    stage is Available || stage is Downloading || stage is Ready
}

pub fn found(stage: Stage) -> (r: bool)
    ensures
        r == spec_found(stage),
{
    match stage {
        Stage::Available | Stage::Downloading | Stage::Ready => true,
        _ => false,
    }
}

/// Whether the interval since the last check has run out at `now`. A last check in the
/// future counts as none, so a clock that moved backwards never parks the check.
pub open spec fn spec_due(last_checked_at: Option<i64>, now: i64) -> bool {
    match last_checked_at {
        None => true,
        Some(last) => !(0 <= now - last < CHECK_INTERVAL_SECONDS),
    }
}

pub fn due_at(last_checked_at: Option<i64>, now: i64) -> (r: bool)
    ensures
        r == spec_due(last_checked_at, now),
{
    match last_checked_at {
        None => true,
        Some(last) => {
            // The difference is taken in a wider type, so no pair of readings overflows.
            let elapsed: i128 = now as i128 - last as i128;
            !(0 <= elapsed && elapsed < CHECK_INTERVAL_SECONDS as i128)
        },
    }
}

/// Whether a check is due now: the interval rule at whatever instant the clock reads.
pub fn due(last_checked_at: Option<i64>) -> (r: bool)
    ensures
        exists|now: i64| r == #[trigger] spec_due(last_checked_at, now),
        last_checked_at is None ==> r,
{
    let now = now_seconds();
    let r = due_at(last_checked_at, now);
    assert(r == spec_due(last_checked_at, now));
    r
}

/// Whether a check may start: a forced one skips the switch and the interval; in-flight
/// work is left alone either way, and a background check also leaves an update in hand
/// alone.
pub open spec fn spec_may_check(stage: Stage, preferences: Preferences, forced: bool, now: i64) -> bool {
    !spec_busy(stage) && (forced || (preferences.auto_check && !spec_found(stage) && spec_due(
        preferences.last_checked_at,
        now,
    )))
}

pub fn may_check_at(stage: Stage, preferences: &Preferences, forced: bool, now: i64) -> (r: bool)
    ensures
        r == spec_may_check(stage, *preferences, forced, now),
{
    !busy(stage) && (forced || (preferences.auto_check && !found(stage) && due_at(
        preferences.last_checked_at,
        now,
    )))
}

pub fn may_check(stage: Stage, preferences: &Preferences, forced: bool) -> (r: bool)
    ensures
        exists|now: i64| r == #[trigger] spec_may_check(stage, *preferences, forced, now),
        spec_busy(stage) ==> !r,
        !spec_busy(stage) && forced ==> r,
        !spec_busy(stage) && preferences.auto_check && !spec_found(stage)
            && preferences.last_checked_at is None ==> r,
        !forced && (!preferences.auto_check || spec_found(stage)) ==> !r,
{
    let now = now_seconds();
    let r = may_check_at(stage, preferences, forced, now);
    assert(r == spec_may_check(stage, *preferences, forced, now));
    r
}

pub open spec fn opt_text(o: Option<&str>) -> Option<Seq<char>> {
    match o {
        Some(s) => Some(s@),
        None => None,
    }
}

fn same_version(a: Option<&str>, b: Option<&str>) -> (r: bool)
    ensures
        r == (opt_text(a) == opt_text(b)),
{
    match (a, b) {
        (Some(x), Some(y)) => str_eq(x, y),
        (None, None) => true,
        _ => false,
    }
}

/// The stage a completed check leaves: nothing newer means up to date; a release on offer
/// is ready when its download is in hand and available otherwise.
pub open spec fn settled_stage(latest: Option<Seq<char>>, payload_kept: bool) -> Stage {
    match latest {
        None => Stage::UpToDate,
        Some(_) => if payload_kept {
            Stage::Ready
        } else {
            Stage::Available
        },
    }
}

/// What a check's answer does to the state at `now` (see `UpdateFlow::settle_at`).
pub open spec fn settled(
    before: UpdateFlow,
    held: Option<&str>,
    outcome: Result<Option<&str>, &str>,
    forced: bool,
    now: i64,
    completed: bool,
    after: UpdateFlow,
) -> bool {
    &&& completed == outcome is Ok
    &&& match outcome {
        Ok(latest) => {
            let kept = before.payload is Some && opt_text(latest) == opt_text(held);
            let stage = settled_stage(opt_text(latest), kept);
            &&& after.payload is Some <==> kept
            &&& kept ==> after.payload == before.payload
            &&& after.preferences.last_checked_at == Some(now)
            &&& after.preferences.auto_check == before.preferences.auto_check
            &&& if !forced && stage is UpToDate {
                after.stage == Stage::Idle && after.error is None
            } else {
                after.stage == stage && after.error == before.error
            }
        },
        Err(error) => {
            &&& after.payload == before.payload
            &&& after.preferences == before.preferences
            &&& if forced {
                after.stage == Stage::Failed && (after.error matches Some(e)
                    && e@ == error@)
            } else {
                after.stage == Stage::Idle && after.error is None
            }
        },
    }
    &&& after.progress == before.progress
}

impl UpdateFlow {
    pub fn new(preferences: Preferences) -> (r: Self)
        ensures
            r.stage == Stage::Idle,
            r.progress is None,
            r.error is None,
            r.payload is None,
            r.preferences == preferences,
    {
        UpdateFlow { stage: Stage::Idle, progress: None, error: None, payload: None, preferences }
    }

    /// Starts a check when one may start at `now`; says whether it did.
    pub fn begin_check_at(&mut self, forced: bool, now: i64) -> (r: bool)
        ensures
            r == spec_may_check(old(self).stage, old(self).preferences, forced, now),
            r ==> final(self).stage == Stage::Checking && final(self).error is None
                && final(self).payload == old(self).payload
                && final(self).progress == old(self).progress
                && final(self).preferences == old(self).preferences,
            !r ==> *final(self) == *old(self),
    {
        if !may_check_at(self.stage, &self.preferences, forced, now) {
            return false;
        }
        self.stage = Stage::Checking;
        self.error = None;
        true
    }

    /// Starts a check when one may start now; says whether it did. Whether the interval
    /// has run out depends on the clock; the rest does not.
    pub fn begin_check(&mut self, forced: bool) -> (r: bool)
        ensures
            r ==> final(self).stage == Stage::Checking && final(self).error is None
                && final(self).payload == old(self).payload
                && final(self).progress == old(self).progress
                && final(self).preferences == old(self).preferences,
            !r ==> *final(self) == *old(self),
            spec_busy(old(self).stage) ==> !r,
            !spec_busy(old(self).stage) && forced ==> r,
            !forced && (!old(self).preferences.auto_check || spec_found(old(self).stage)) ==> !r,
            exists|now: i64| r == #[trigger] spec_may_check(old(self).stage, old(self).preferences, forced, now),
    {
        self.begin_check_at(forced, now_seconds())
    }

    /// What a check's answer does, given the version of the update already held, at `now`.
    /// A download in hand stays good while its release is still the one on offer. "Up to
    /// date" and "failed" are answers only to a check the user asked for; a background check
    /// with nothing new says nothing, and a failed one just tries again next time. Says
    /// whether the round trip completed, which is what restarts the interval.
    pub fn settle_at(
        &mut self,
        held: Option<&str>,
        outcome: Result<Option<&str>, &str>,
        forced: bool,
        now: i64,
    ) -> (completed: bool)
        ensures
            settled(*old(self), held, outcome, forced, now, completed, *final(self)),
    {
        let completed = match outcome {
            Ok(latest) => {
                if !same_version(latest, held) {
                    self.payload = None;
                }
                self.stage = match latest {
                    None => Stage::UpToDate,
                    Some(_) => if self.payload.is_some() {
                        Stage::Ready
                    } else {
                        Stage::Available
                    },
                };
                self.preferences.last_checked_at = Some(now);
                true
            },
            Err(error) => {
                self.stage = Stage::Failed;
                self.error = Some(crate::text::to_owned(error));
                false
            },
        };
        if !forced {
            match self.stage {
                Stage::UpToDate | Stage::Failed => {
                    self.stage = Stage::Idle;
                    self.error = None;
                },
                _ => {},
            }
        }
        completed
    }

    pub fn settle(&mut self, held: Option<&str>, outcome: Result<Option<&str>, &str>, forced: bool) -> (completed: bool)
        ensures
            exists|now: i64| #[trigger] settled(*old(self), held, outcome, forced, now, completed, *final(self)),
    {
        self.settle_at(held, outcome, forced, now_seconds())
    }

    /// Starts a download of the release on offer; says whether one started.
    pub fn begin_download(&mut self, release_held: bool) -> (r: bool)
        ensures
            r == (release_held && old(self).stage is Available),
            r ==> final(self).stage == Stage::Downloading && final(self).progress is None
                && final(self).error is None,
            !r ==> *final(self) == *old(self),
    {
        if !release_held || self.stage != Stage::Available {
            return false;
        }
        self.stage = Stage::Downloading;
        self.progress = None;
        self.error = None;
        true
    }

    /// A download finished: a verified payload makes the update ready, a failure is shown.
    pub fn finish_download(&mut self, outcome: Result<Vec<u8>, String>)
        ensures
            final(self).progress is None,
            match outcome {
                Ok(bytes) => final(self).stage == Stage::Ready && final(self).payload == Some(bytes),
                Err(error) => final(self).stage == Stage::Failed && final(self).error == Some(error),
            },
    {
        self.progress = None;
        match outcome {
            Ok(bytes) => {
                self.payload = Some(bytes);
                self.stage = Stage::Ready;
            },
            Err(error) => {
                self.stage = Stage::Failed;
                self.error = Some(error);
            },
        }
    }

    /// Takes the payload to install: only a ready update with its release held gives one.
    /// Taken, not copied: it is large, and the process is about to be replaced.
    pub fn take_payload(&mut self, release_held: bool) -> (r: Option<Vec<u8>>)
        ensures
            (old(self).stage is Ready && release_held) ==> r == old(self).payload && final(self).payload is None,
            !(old(self).stage is Ready && release_held) ==> r is None && *final(self) == *old(self),
            final(self).stage == old(self).stage,
    {
        if self.stage != Stage::Ready || !release_held {
            return None;
        }
        self.payload.take()
    }

    /// An install failed: the update stays ready, with its verified payload back in hand,
    /// so a retry is one click.
    pub fn install_failed(&mut self, payload: Vec<u8>, error: String)
        ensures
            final(self).payload == Some(payload),
            final(self).error == Some(error),
            final(self).stage == old(self).stage,
    {
        self.payload = Some(payload);
        self.error = Some(error);
    }

    /// The footer's view of the state.
    pub fn status(&self, current_version: String, version: Option<String>, installable: bool) -> (r: UpdateStatus)
        ensures
            r.stage == self.stage,
            r.progress == self.progress,
            r.auto_check == self.preferences.auto_check,
            r.installable == installable,
            r.current_version == current_version,
            r.version == version,
    {
        UpdateStatus {
            stage: self.stage,
            current_version,
            version,
            progress: self.progress,
            error: match &self.error {
                Some(e) => Some(e.clone()),
                None => None,
            },
            auto_check: self.preferences.auto_check,
            installable,
        }
    }
}

/// The percentage of a download, once the response declared a non-zero length: whole
/// percent, never above a hundred.
pub open spec fn spec_download_percent(received: u64, total: Option<u64>) -> Option<u8> {
    match total {
        Some(t) if t > 0 => Some(
            (if (received * 100) / (t as int) > 100 {
                100
            } else {
                (received * 100) / (t as int)
            }) as u8,
        ),
        _ => None,
    }
}

pub fn download_percent(received: u64, total: Option<u64>) -> (r: Option<u8>)
    requires
        received <= u64::MAX / 100,
    ensures
        r == spec_download_percent(received, total),
{
    match total {
        Some(t) => {
            if t == 0 {
                return None;
            }
            let percent = (received * 100) / t;
            Some(
                if percent > 100 {
                    100u8
                } else {
                    percent as u8
                },
            )
        },
        None => None,
    }
}

/// Chunks arrive far faster than a person can read them, so progress is announced only
/// when the rounded percentage actually moves: gives the percentage to announce, if any.
pub fn progress_to_announce(announced: Option<u8>, received: u64, total: Option<u64>) -> (r: Option<u8>)
    requires
        received <= u64::MAX / 100,
    ensures
        r == (match spec_download_percent(received, total) {
            Some(p) if Some(p) != announced => Some(p),
            _ => None,
        }),
{
    match download_percent(received, total) {
        Some(p) => if announced == Some(p) {
            None
        } else {
            Some(p)
        },
        None => None,
    }
}

/// A background check never interrupts work in flight or an update in hand, and a failed
/// background check never blocks the next automatic one.
pub proof fn law_background_checks_leave_found_updates_alone(
    stage: Stage,
    preferences: Preferences,
    now: i64,
)
    ensures
        spec_found(stage) || spec_busy(stage) ==> !spec_may_check(stage, preferences, false, now),
        spec_busy(stage) ==> !spec_may_check(stage, preferences, true, now),
        !spec_busy(stage) ==> spec_may_check(stage, preferences, true, now),
        preferences.auto_check && spec_due(preferences.last_checked_at, now) ==> spec_may_check(
            Stage::Failed,
            preferences,
            false,
            now,
        ),
{
}

/// A check that just completed holds off the next automatic one for the whole interval,
/// and a reading from the future holds off nothing.
pub proof fn law_the_interval_runs_from_the_last_check(last: i64, now: i64)
    ensures
        0 <= now - last < CHECK_INTERVAL_SECONDS ==> !spec_due(Some(last), now),
        now - last >= CHECK_INTERVAL_SECONDS ==> spec_due(Some(last), now),
        now < last ==> spec_due(Some(last), now),
{
}

} // verus!
