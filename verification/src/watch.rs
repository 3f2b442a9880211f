//! Watching the library: which changes matter, and when the gallery is brought up
//! to date.

use crate::library::{is_supported_video_format, is_video};
use crate::text::texts;
use crate::window::time_since;
use vstd::prelude::*;
use vstd::string::*;

verus! {

/// How long after monitoring was resumed no update is allowed, in nanoseconds.
pub const SETTLE_NANOS: u128 = 5_000_000_000;

/// How often pending changes are looked at, in milliseconds.
pub const TICK_MS: u64 = 1000;

/// The kind of a change in the library.
#[derive(Debug, Clone, Copy, PartialEq, Eq, Structural)]
pub enum ChangeKind {
    Create,
    Remove,
    Modify,
    Other,
}

/// Whether a change matters: something was made, removed or modified, and one of the
/// paths concerned is that of a video.
pub fn is_relevant_change(kind: ChangeKind, paths: &Vec<String>) -> (r: bool)
    ensures
        r == (kind != ChangeKind::Other && exists|i: int|
            0 <= i < paths@.len() && is_video(#[trigger] texts(paths@)[i])),
{
    if kind == ChangeKind::Other {
        return false;
    }
    for i in 0..paths.len()
        invariant
            kind != ChangeKind::Other,
            forall|j: int| 0 <= j < i ==> !is_video(#[trigger] texts(paths@)[j]),
    {
        assert(texts(paths@)[i as int] == paths@[i as int]@);
        if is_supported_video_format(paths[i].as_str()) {
            return true;
        }
    }
    false
}

/// What came from the watcher since the last look.
#[derive(Debug, Clone, Copy, PartialEq, Eq, Structural)]
pub enum Signals {
    /// Nothing.
    Quiet,
    /// At least one change.
    Changes,
    /// The watcher is gone.
    Closed,
}

/// What to do at a look.
#[derive(Debug, Clone, Copy, PartialEq, Eq, Structural)]
pub enum Tick {
    /// Nothing.
    Wait,
    /// Update the gallery because of new changes.
    Update,
    /// Update the gallery because of changes that were held back.
    UpdatePending,
    /// Look no more.
    Stop,
}

/// What stands between changes and updates.
#[derive(Debug)]
pub struct Monitoring {
    paused: bool,
    last_resume: Option<u128>,
    pending: bool,
}

/// The state of monitoring.
pub struct MonitoringView {
    /// Monitoring is paused.
    pub paused: bool,
    /// When monitoring was last resumed, in nanoseconds.
    pub last_resume: Option<u128>,
    /// An update is due.
    pub pending: bool,
}

impl View for Monitoring {
    type V = MonitoringView;

    closed spec fn view(&self) -> MonitoringView {
        MonitoringView { paused: self.paused, last_resume: self.last_resume, pending: self.pending }
    }
}

/// Updates are allowed: monitoring is not paused, and was not resumed just now.
pub open spec fn allows(m: MonitoringView, now: u128) -> bool {
    !m.paused && (m.last_resume matches Some(at) ==> time_since(now, at) >= SETTLE_NANOS)
}

/// The state after monitoring was resumed.
pub open spec fn resumed(now: u128) -> MonitoringView {
    MonitoringView { paused: false, last_resume: Some(now), pending: true }
}

/// The state after monitoring was paused.
pub open spec fn paused(m: MonitoringView) -> MonitoringView {
    MonitoringView { paused: true, ..m }
}

/// What to do at a look.
pub open spec fn tick_of(m: MonitoringView, signals: Signals, now: u128) -> Tick {
    match signals {
        Signals::Closed => Tick::Stop,
        Signals::Changes => if allows(m, now) {
            Tick::Update
        } else {
            Tick::Wait
        },
        Signals::Quiet => if allows(m, now) && m.pending {
            Tick::UpdatePending
        } else {
            Tick::Wait
        },
    }
}

/// The state after a look.
pub open spec fn after_tick(m: MonitoringView, signals: Signals, now: u128) -> MonitoringView {
    match tick_of(m, signals, now) {
        Tick::Update | Tick::UpdatePending => MonitoringView { pending: false, ..m },
        Tick::Wait => MonitoringView {
            pending: m.pending || (signals == Signals::Changes && !m.paused),
            ..m
        },
        Tick::Stop => m,
    }
}

impl Monitoring {
    /// Monitoring that is going on.
    pub fn new() -> (m: Self)
        ensures
            m@ == (MonitoringView { paused: false, last_resume: None, pending: false }),
    {
        Monitoring { paused: false, last_resume: None, pending: false }
    }

    /// Resumes monitoring. What happened meanwhile makes an update due, which waits
    /// until things have settled.
    pub fn resume_monitoring(&mut self, now: u128)
        ensures
            final(self)@ == resumed(now),
    {
        self.paused = false;
        self.last_resume = Some(now);
        self.pending = true;
    }

    /// Pauses monitoring.
    pub fn pause_monitoring(&mut self)
        ensures
            final(self)@ == paused(old(self)@),
    {
        self.paused = true;
    }

    /// Whether monitoring is paused.
    pub fn is_monitoring_paused(&self) -> (r: bool)
        ensures
            r == self@.paused,
    {
        self.paused
    }

    /// Whether updates are allowed.
    pub fn should_allow_update(&self, now: u128) -> (r: bool)
        ensures
            r == allows(self@, now),
    {
        if self.paused {
            return false;
        }
        match self.last_resume {
            Some(at) => now >= at && now - at >= SETTLE_NANOS,
            None => true,
        }
    }

    /// Whether an update is due.
    pub fn has_pending_update(&self) -> (r: bool)
        ensures
            r == self@.pending,
    {
        self.pending
    }

    /// Forgets that an update is due.
    pub fn clear_pending_update(&mut self)
        ensures
            final(self)@ == (MonitoringView { pending: false, ..old(self)@ }),
    {
        self.pending = false;
    }

    /// Decides whether the gallery is updated now, given what came from the watcher.
    pub fn tick(&mut self, signals: Signals, now: u128) -> (t: Tick)
        ensures
            t == tick_of(old(self)@, signals, now),
            final(self)@ == after_tick(old(self)@, signals, now),
    {
        match signals {
            Signals::Closed => Tick::Stop,
            Signals::Changes => if self.should_allow_update(now) {
                self.clear_pending_update();
                Tick::Update
            } else {
                if !self.is_monitoring_paused() {
                    self.pending = true;
                }
                Tick::Wait
            },
            Signals::Quiet => if self.should_allow_update(now) && self.has_pending_update() {
                self.clear_pending_update();
                Tick::UpdatePending
            } else {
                Tick::Wait
            },
        }
    }
}

/// What is said after the gallery was updated.
pub fn update_message(t: Tick) -> (message: Option<String>)
    ensures
        crate::text::opt_text(message) == match t {
            Tick::Update => Some("🔄 Galería actualizada automáticamente"@),
            Tick::UpdatePending => Some("🔄 Galería actualizada (cambios detectados)"@),
            _ => None,
        },
{
    match t {
        Tick::Update => Some("🔄 Galería actualizada automáticamente".to_owned()),
        Tick::UpdatePending => Some("🔄 Galería actualizada (cambios detectados)".to_owned()),
        _ => None,
    }
}

/// A look never updates the gallery while monitoring is paused, nor within the time
/// to settle after it was resumed.
pub proof fn law_no_update_before_its_time(m: MonitoringView, signals: Signals, now: u128)
    ensures
        tick_of(m, signals, now) == Tick::Update || tick_of(m, signals, now) == Tick::UpdatePending
            ==> !m.paused && (m.last_resume matches Some(at) ==> now - at >= SETTLE_NANOS),
{
}

/// No change is forgotten: a change that is seen updates the gallery at once, or
/// leaves an update due, or falls into a pause, whose end makes an update due.
pub proof fn law_no_change_is_forgotten(m: MonitoringView, now: u128, later: u128)
    ensures
        ({
            ||| tick_of(m, Signals::Changes, now) == Tick::Update
            ||| after_tick(m, Signals::Changes, now).pending
            ||| m.paused
        }),
        resumed(later).pending,
{
}

/// An update that is due is made at the first look at which updates are allowed, and
/// stays due until then.
pub proof fn law_due_update_is_made(m: MonitoringView, signals: Signals, now: u128)
    requires
        m.pending,
        signals != Signals::Closed,
    ensures
        allows(m, now) ==> {
            ||| tick_of(m, signals, now) == Tick::Update
            ||| tick_of(m, signals, now) == Tick::UpdatePending
        },
        !allows(m, now) ==> after_tick(m, signals, now) == m,
{
}

/// After monitoring was resumed, the gallery is brought up to date once the time to
/// settle is over.
pub proof fn law_resume_leads_to_update(at: u128, now: u128)
    requires
        now >= at,
    ensures
        allows(resumed(at), now) <==> now - at >= SETTLE_NANOS,
        now - at >= SETTLE_NANOS ==> tick_of(resumed(at), Signals::Quiet, now)
            == Tick::UpdatePending,
{
}

/// Updates are allowed exactly while monitoring is not paused and was not resumed within the
/// last five seconds; a clock that was set back counts as no time.
pub proof fn law_updates_wait_five_seconds(m: MonitoringView, at: u128, now: u128)
    ensures
        m.paused ==> !allows(m, now),
        !m.paused && m.last_resume is None ==> allows(m, now),
        !m.paused && m.last_resume == Some(at) ==> (allows(m, now) <==> now - at >= 5_000_000_000),
{
}

/// A look at changes updates the gallery exactly when updates are allowed; a quiet look does so
/// when an update is due besides. Looking ends only when the watcher is gone.
pub proof fn law_look_updates_when_allowed(m: MonitoringView, now: u128)
    ensures
        tick_of(m, Signals::Changes, now) == if allows(m, now) {
            Tick::Update
        } else {
            Tick::Wait
        },
        tick_of(m, Signals::Quiet, now) == if allows(m, now) && m.pending {
            Tick::UpdatePending
        } else {
            Tick::Wait
        },
        tick_of(m, Signals::Closed, now) == Tick::Stop,
{
}

/// Looking changes nothing but whether an update is due: it no longer is after an update, and it
/// is after changes that came too early, unless they fell into a pause.
pub proof fn law_look_changes_what_is_due(m: MonitoringView, signals: Signals, now: u128)
    ensures
        after_tick(m, signals, now).paused == m.paused,
        after_tick(m, signals, now).last_resume == m.last_resume,
        tick_of(m, signals, now) == Tick::Update || tick_of(m, signals, now) == Tick::UpdatePending
            ==> !after_tick(m, signals, now).pending,
        signals == Signals::Changes && !allows(m, now) ==> (after_tick(m, signals, now).pending
            <==> m.pending || !m.paused),
        signals == Signals::Quiet && !(allows(m, now) && m.pending) ==> after_tick(m, signals, now)
            == m,
        signals == Signals::Closed ==> after_tick(m, signals, now) == m,
{
}

/// Pausing changes nothing but that monitoring is paused; resuming makes an update due and
/// starts the time to settle, whatever was before.
pub proof fn law_pause_and_resume(m: MonitoringView, now: u128)
    ensures
        paused(m).paused,
        paused(m).last_resume == m.last_resume,
        paused(m).pending == m.pending,
        !resumed(now).paused,
        resumed(now).last_resume == Some(now),
        resumed(now).pending,
{
}

} // verus!
