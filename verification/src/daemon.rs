//! Watching a repository: which file events count, when a pass runs, and how
//! long to wait in between.
//!
//! `Watch` decides; whoever drives it waits on the file watcher until the
//! deadline it names, runs the passes it asks for, and hands back what happened.
//! Time is counted in nanoseconds from when the daemon started.
use vstd::prelude::*;

use crate::config::{Repo, DURATION_MAX_NANOS};
use crate::issue::still_reported;
use crate::sync::Outcome;

verus! {

/// Whether `path` lies under `base`, comparing whole path components as
/// `std::path::Path::starts_with` does.
pub uninterp spec fn path_starts_with(path: Seq<char>, base: Seq<char>) -> bool;

/// Calls `std::path::Path::starts_with`, which compares whole components:
/// `/repo/.gitx` is not under `/repo/.git`. The result is named, not described.
#[verifier::external_body]
pub fn under(path: &str, git_dir: &str) -> (r: bool)
    ensures
        r == path_starts_with(path@, git_dir@),
{
    std::path::Path::new(path).starts_with(git_dir)
}

/// One file event: whether it was only a read, and the paths it touched.
#[derive(Debug, Clone, PartialEq, Eq)]
pub struct FileEvent {
    pub is_access: bool,
    pub paths: Vec<String>,
}

/// What the file watcher delivered: a batch of events, or the errors it hit.
#[derive(Debug, Clone, PartialEq, Eq)]
pub enum Delivery {
    Events(Vec<FileEvent>),
    Errors(Vec<String>),
}

/// Whether an event is a change outside `git_dir`.
pub open spec fn event_counts(e: FileEvent, git_dir: Seq<char>) -> bool {
    !e.is_access && exists|k: int|
        0 <= k < e.paths.len() && !path_starts_with(#[trigger] e.paths@[k]@, git_dir)
}

/// Whether a delivery should start a pass: some event in it changed something
/// outside `.git`. Reads are not changes (every pass reads the whole tree, and
/// counting those would keep an idle repository passing for ever), and git's
/// own writes under `.git` are not either. Errors start nothing.
pub open spec fn relevant(d: Delivery, git_dir: Seq<char>) -> bool {
    match d {
        Delivery::Events(events) => exists|i: int|
            0 <= i < events.len() && event_counts(#[trigger] events@[i], git_dir),
        Delivery::Errors(_) => false,
    }
}

/// Whether an event is a change outside `.git`, given for each of its paths
/// (`inside`, in the same order) whether it lies under `.git`.
pub fn event_counts_given(e: &FileEvent, inside: &Vec<bool>) -> (r: bool)
    requires
        inside.len() == e.paths.len(),
    ensures
        r == (!e.is_access && exists|k: int| 0 <= k < inside.len() && !#[trigger] inside@[k]),
{
    if e.is_access {
        return false;
    }
    let mut k: usize = 0;
    while k < inside.len()
        invariant
            k <= inside.len(),
            !e.is_access,
            forall|j: int| 0 <= j < k ==> #[trigger] inside@[j],
        decreases inside.len() - k,
    {
        if !inside[k] {
            assert(!inside@[k as int]);
            return true;
        }
        k = k + 1;
    }
    false
}

fn event_is_relevant(e: &FileEvent, git_dir: &str) -> (r: bool)
    ensures
        r == event_counts(*e, git_dir@),
{
    let mut inside: Vec<bool> = Vec::new();
    let mut k: usize = 0;
    while k < e.paths.len()
        invariant
            k <= e.paths.len(),
            inside.len() == k,
            forall|j: int| 0 <= j < k ==> #[trigger] inside@[j] == path_starts_with(
                e.paths@[j]@,
                git_dir@,
            ),
        decreases e.paths.len() - k,
    {
        inside.push(under(e.paths[k].as_str(), git_dir));
        k = k + 1;
    }
    let r = event_counts_given(e, &inside);
    proof {
        if r {
            let k = choose|k: int| 0 <= k < inside.len() && !#[trigger] inside@[k];
            assert(!path_starts_with(e.paths@[k]@, git_dir@));
        }
        if event_counts(*e, git_dir@) {
            let k = choose|k: int|
                0 <= k < e.paths.len() && !path_starts_with(#[trigger] e.paths@[k]@, git_dir@);
            assert(!inside@[k]);
        }
    }
    r
}

fn any_relevant(events: &Vec<FileEvent>, git_dir: &str) -> (r: bool)
    ensures
        r == exists|i: int| 0 <= i < events.len() && event_counts(#[trigger] events@[i], git_dir@),
{
    let mut i: usize = 0;
    while i < events.len()
        invariant
            i <= events.len(),
            forall|j: int| 0 <= j < i ==> !event_counts(#[trigger] events@[j], git_dir@),
        decreases events.len() - i,
    {
        if event_is_relevant(&events[i], git_dir) {
            assert(event_counts(events@[i as int], git_dir@));
            return true;
        }
        i = i + 1;
    }
    false
}

/// Whether a delivery from the file watcher should start a pass.
pub fn is_relevant(d: &Delivery, git_dir: &str) -> (r: bool)
    ensures
        r == relevant(*d, git_dir@),
{
    match d {
        Delivery::Events(events) => any_relevant(events, git_dir),
        Delivery::Errors(_) => false,
    }
}

/// Whether every pass of a run of `boswell once` ended well.
pub fn all_well(outcomes: &Vec<Outcome>) -> (ok: bool)
    ensures
        ok == forall|i: int| 0 <= i < outcomes.len() ==> !(#[trigger] outcomes@[i]@).is_failure(),
{
    let mut i: usize = 0;
    while i < outcomes.len()
        invariant
            i <= outcomes.len(),
            forall|j: int| 0 <= j < i ==> !(#[trigger] outcomes@[j]@).is_failure(),
        decreases outcomes.len() - i,
    {
        if outcomes[i].is_failure() {
            return false;
        }
        i = i + 1;
    }
    true
}

// ------------------------------------------------------------------------
// The watch loop
// ------------------------------------------------------------------------

/// What woke a waiting watcher.
pub enum Wake {
    /// The file watcher delivered; whether it was relevant.
    Files(bool),
    /// The deadline passed.
    Timeout,
    /// The file watcher went away.
    Closed,
}

/// What happened since the last action.
pub enum WatchEvent {
    /// Watching has begun.
    Begin,
    /// A pass ended with `outcome` at time `now`.
    Synced { outcome: Outcome, now: u128 },
    /// The wait ended at time `now`.
    Woke { wake: Wake, now: u128 },
    /// Whether the report is still open, asked at time `now`.
    Answered { open: Result<bool, String>, now: u128 },
}

/// What the watcher asks of whoever drives it.
#[derive(Debug, Clone, Copy, PartialEq, Eq)]
pub enum WatchAction {
    /// Run a sync pass; answer `Synced`.
    Sync,
    /// Wait for the file watcher, until this time or for ever; answer `Woke`.
    Wait(Option<u128>),
    /// Ask whether the report is still open; answer `Answered`.
    Ask,
    /// The file watcher is gone: stop.
    Stop,
}

/// A `WatchAction` as a value.
pub enum WatchActionView {
    Sync,
    Wait(Option<int>),
    Ask,
    Stop,
}

impl View for WatchAction {
    type V = WatchActionView;

    open spec fn view(&self) -> WatchActionView {
        match self {
            WatchAction::Sync => WatchActionView::Sync,
            WatchAction::Wait(d) => WatchActionView::Wait(
                match d {
                    Some(t) => Some(*t as int),
                    None => None,
                },
            ),
            WatchAction::Ask => WatchActionView::Ask,
            WatchAction::Stop => WatchActionView::Stop,
        }
    }
}

/// Where the watcher stands.
#[derive(Clone, Copy, PartialEq, Eq, Structural)]
pub enum Phase {
    Starting,
    Idle,
    Settling,
    Checking,
    Syncing,
    Stopped,
}

/// A watcher as values.
pub struct WatchView {
    pub fetch_every: Option<int>,
    pub recheck: int,
    pub debounce: int,
    pub outstanding: bool,
    pub paused: bool,
    pub last_sync: int,
    pub fetch_due: Option<int>,
    pub deadline: int,
    pub phase: Phase,
}

/// The earlier of two optional deadlines.
pub open spec fn earliest(a: Option<int>, b: Option<int>) -> Option<int> {
    match (a, b) {
        (Some(x), Some(y)) => Some(if x <= y {
            x
        } else {
            y
        }),
        (Some(x), None) => Some(x),
        (None, y) => y,
    }
}

/// The time an event happened.
pub open spec fn now_of(e: WatchEvent) -> int {
    match e {
        WatchEvent::Synced { now, .. } => now as int,
        WatchEvent::Woke { now, .. } => now as int,
        WatchEvent::Answered { now, .. } => now as int,
        WatchEvent::Begin => 0,
    }
}

impl WatchView {
    /// The next timer wake: a recheck while a failure is outstanding, and the
    /// next fetch when pulling on an interval, whichever comes first.
    pub open spec fn due(self) -> Option<int> {
        let recheck = if self.outstanding {
            Some(self.last_sync + self.recheck)
        } else {
            None
        };
        earliest(recheck, self.fetch_due)
    }

    /// Whether `e` is an answer this watcher waits for.
    pub open spec fn accepts(self, e: WatchEvent) -> bool {
        &&& now_of(e) <= DURATION_MAX_NANOS
        &&& match self.phase {
            Phase::Starting => e is Begin,
            Phase::Syncing => e is Synced,
            Phase::Idle | Phase::Settling => e is Woke,
            Phase::Checking => e is Answered,
            Phase::Stopped => false,
        }
    }

    /// The settings stay within what a `Duration` holds.
    pub open spec fn wf(self) -> bool {
        &&& 0 <= self.debounce <= DURATION_MAX_NANOS
        &&& 0 <= self.recheck <= DURATION_MAX_NANOS
        &&& self.fetch_every matches Some(i) ==> 0 < i <= DURATION_MAX_NANOS
        &&& self.last_sync <= DURATION_MAX_NANOS
        &&& self.fetch_due matches Some(t) ==> 0 <= t <= 2 * DURATION_MAX_NANOS
        &&& 0 <= self.deadline <= 2 * DURATION_MAX_NANOS
    }

    /// Wait for the file watcher until the next timer wake.
    pub open spec fn idle(self) -> (WatchView, WatchActionView) {
        (WatchView { phase: Phase::Idle, ..self }, WatchActionView::Wait(self.due()))
    }

    /// A pass has just run, or the report was just asked about, at `now`.
    pub open spec fn synced_at(self, now: int) -> WatchView {
        WatchView {
            last_sync: now,
            fetch_due: match self.fetch_every {
                Some(i) => Some(now + i),
                None => None,
            },
            ..self
        }
    }

    /// Wait out the debounce until `deadline`, or sync when it has passed.
    pub open spec fn settle(self, now: int, deadline: int) -> (WatchView, WatchActionView) {
        if now >= deadline {
            (WatchView { phase: Phase::Syncing, ..self }, WatchActionView::Sync)
        } else {
            (
                WatchView { phase: Phase::Settling, deadline, ..self },
                WatchActionView::Wait(Some(deadline)),
            )
        }
    }

    /// The watcher's next state and action, given `e`.
    pub open spec fn advance(self, e: WatchEvent) -> (WatchView, WatchActionView) {
        match self.phase {
            Phase::Starting => (WatchView { phase: Phase::Syncing, ..self }, WatchActionView::Sync),
            Phase::Syncing => match e {
                WatchEvent::Synced { outcome, now } => WatchView {
                    outstanding: outcome@.is_failure(),
                    paused: outcome@ is NeedsHuman,
                    ..self.synced_at(now as int)
                }.idle(),
                _ => arbitrary(),
            },
            Phase::Idle => match e {
                WatchEvent::Woke { wake, now } => match wake {
                    Wake::Files(relevant) => if relevant {
                        self.settle(now as int, now + self.debounce)
                    } else {
                        self.idle()
                    },
                    Wake::Timeout => if self.paused {
                        (WatchView { phase: Phase::Checking, ..self }, WatchActionView::Ask)
                    } else {
                        (WatchView { phase: Phase::Syncing, ..self }, WatchActionView::Sync)
                    },
                    Wake::Closed => (WatchView { phase: Phase::Stopped, ..self }, WatchActionView::Stop),
                },
                _ => arbitrary(),
            },
            Phase::Settling => match e {
                WatchEvent::Woke { wake, now } => match wake {
                    Wake::Files(relevant) => self.settle(
                        now as int,
                        if relevant {
                            now + self.debounce
                        } else {
                            self.deadline
                        },
                    ),
                    Wake::Timeout => (WatchView { phase: Phase::Syncing, ..self }, WatchActionView::Sync),
                    Wake::Closed => (WatchView { phase: Phase::Stopped, ..self }, WatchActionView::Stop),
                },
                _ => arbitrary(),
            },
            Phase::Checking => match e {
                WatchEvent::Answered { open, now } => {
                    let wait = match open {
                        Ok(o) => o,
                        Err(_) => true,
                    };
                    let w = self.synced_at(now as int);
                    if wait {
                        w.idle()
                    } else {
                        (WatchView { phase: Phase::Syncing, ..w }, WatchActionView::Sync)
                    }
                },
                _ => arbitrary(),
            },
            Phase::Stopped => (self, arbitrary()),
        }
    }
}

/// A watcher over one repository.
pub struct Watch {
    fetch_every: Option<u128>,
    recheck: u128,
    debounce: u128,
    outstanding: bool,
    paused: bool,
    last_sync: u128,
    fetch_due: Option<u128>,
    deadline: u128,
    phase: Phase,
}

/// An optional time as an optional integer.
pub open spec fn time_view(t: Option<u128>) -> Option<int> {
    match t {
        Some(x) => Some(x as int),
        None => None,
    }
}

impl View for Watch {
    type V = WatchView;

    closed spec fn view(&self) -> WatchView {
        WatchView {
            fetch_every: time_view(self.fetch_every),
            recheck: self.recheck as int,
            debounce: self.debounce as int,
            outstanding: self.outstanding,
            paused: self.paused,
            last_sync: self.last_sync as int,
            fetch_due: time_view(self.fetch_due),
            deadline: self.deadline as int,
            phase: self.phase,
        }
    }
}

impl Watch {
    /// A watcher for `repo`, about to begin. It fetches on an interval only
    /// when the repository pulls and the interval is not zero.
    pub fn new(repo: &Repo) -> (w: Watch)
        requires
            repo.debounce.nanos <= DURATION_MAX_NANOS,
            repo.recheck.nanos <= DURATION_MAX_NANOS,
            repo.fetch_interval.nanos <= DURATION_MAX_NANOS,
        ensures
            w@.wf(),
            w@.phase == Phase::Starting,
            w@.debounce == repo.debounce.nanos,
            w@.recheck == repo.recheck.nanos,
            w@.fetch_every == if repo.pull && repo.fetch_interval.nanos != 0 {
                Some(repo.fetch_interval.nanos as int)
            } else {
                None
            },
            !w@.outstanding,
            !w@.paused,
    {
        let fetch_every = if repo.pull && !repo.fetch_interval.is_zero() {
            Some(repo.fetch_interval.nanos)
        } else {
            None
        };
        Watch {
            fetch_every,
            recheck: repo.recheck.nanos,
            debounce: repo.debounce.nanos,
            outstanding: false,
            paused: false,
            last_sync: 0,
            fetch_due: None,
            deadline: 0,
            phase: Phase::Starting,
        }
    }

    /// Whether the watcher has stopped.
    pub fn is_stopped(&self) -> (s: bool)
        ensures
            s == (self@.phase == Phase::Stopped),
    {
        self.phase == Phase::Stopped
    }

    fn due(&self) -> (d: Option<u128>)
        requires
            self@.wf(),
        ensures
            time_view(d) == self@.due(),
    {
        let recheck = if self.outstanding {
            Some(self.last_sync + self.recheck)
        } else {
            None
        };
        match (recheck, self.fetch_due) {
            (Some(x), Some(y)) => Some(
                if x <= y {
                    x
                } else {
                    y
                },
            ),
            (Some(x), None) => Some(x),
            (None, y) => y,
        }
    }

    fn idle(&mut self) -> (a: WatchAction)
        requires
            old(self)@.wf(),
        ensures
            (final(self)@, a@) == old(self)@.idle(),
    {
        self.phase = Phase::Idle;
        WatchAction::Wait(self.due())
    }

    fn synced_at(&mut self, now: u128)
        requires
            old(self)@.wf(),
            now <= DURATION_MAX_NANOS,
        ensures
            final(self)@ == old(self)@.synced_at(now as int),
            final(self)@.wf(),
    {
        self.last_sync = now;
        self.fetch_due = match self.fetch_every {
            Some(i) => Some(now + i),
            None => None,
        };
    }

    fn settle(&mut self, now: u128, deadline: u128) -> (a: WatchAction)
        requires
            old(self)@.wf(),
            deadline <= 2 * DURATION_MAX_NANOS,
        ensures
            (final(self)@, a@) == old(self)@.settle(now as int, deadline as int),
            final(self)@.wf(),
    {
        if now >= deadline {
            self.phase = Phase::Syncing;
            WatchAction::Sync
        } else {
            self.phase = Phase::Settling;
            self.deadline = deadline;
            WatchAction::Wait(Some(deadline))
        }
    }

    /// The next action, given `event`.
    pub fn step(&mut self, event: WatchEvent) -> (a: WatchAction)
        requires
            old(self)@.wf(),
            old(self)@.accepts(event),
        ensures
            (final(self)@, a@) == old(self)@.advance(event),
            final(self)@.wf(),
    {
        match event {
            WatchEvent::Begin => {
                self.phase = Phase::Syncing;
                WatchAction::Sync
            },
            WatchEvent::Synced { outcome, now } => {
                self.synced_at(now);
                self.outstanding = outcome.is_failure();
                self.paused = match outcome {
                    Outcome::NeedsHuman => true,
                    _ => false,
                };
                self.idle()
            },
            WatchEvent::Woke { wake, now } => {
                if self.phase == Phase::Idle {
                    match wake {
                        Wake::Files(relevant) => if relevant {
                            let deadline = now + self.debounce;
                            self.settle(now, deadline)
                        } else {
                            self.idle()
                        },
                        Wake::Timeout => if self.paused {
                            self.phase = Phase::Checking;
                            WatchAction::Ask
                        } else {
                            self.phase = Phase::Syncing;
                            WatchAction::Sync
                        },
                        Wake::Closed => {
                            self.phase = Phase::Stopped;
                            WatchAction::Stop
                        },
                    }
                } else {
                    match wake {
                        Wake::Files(relevant) => {
                            let deadline = if relevant {
                                now + self.debounce
                            } else {
                                self.deadline
                            };
                            self.settle(now, deadline)
                        },
                        Wake::Timeout => {
                            self.phase = Phase::Syncing;
                            WatchAction::Sync
                        },
                        Wake::Closed => {
                            self.phase = Phase::Stopped;
                            WatchAction::Stop
                        },
                    }
                }
            },
            WatchEvent::Answered { open, now } => {
                let wait = still_reported(&open);
                self.synced_at(now);
                if wait {
                    self.idle()
                } else {
                    self.phase = Phase::Syncing;
                    WatchAction::Sync
                }
            },
        }
    }
}

// ------------------------------------------------------------------------
// Laws of watching
// ------------------------------------------------------------------------

/// Reads and git's own writes never start a pass: an irrelevant delivery
/// leaves an idle watcher waiting as before, and does not stretch a debounce.
pub proof fn law_irrelevant_events_start_nothing(w: WatchView, now: u128)
    requires
        w.wf(),
        w.accepts(WatchEvent::Woke { wake: Wake::Files(false), now }),
    ensures
        w.phase == Phase::Idle ==> w.advance(WatchEvent::Woke { wake: Wake::Files(false), now })
            == w.idle(),
        w.phase == Phase::Settling ==> w.advance(
            WatchEvent::Woke { wake: Wake::Files(false), now },
        ).0.deadline == w.deadline,
{
}

/// A burst of writes becomes one pass: every relevant change restarts the
/// debounce, so the pass runs only once the tree has been quiet for the whole
/// debounce.
pub proof fn law_each_change_restarts_the_debounce(w: WatchView, now: u128)
    requires
        w.wf(),
        w.accepts(WatchEvent::Woke { wake: Wake::Files(true), now }),
        w.debounce > 0,
    ensures
        w.advance(WatchEvent::Woke { wake: Wake::Files(true), now }) == (
            WatchView { phase: Phase::Settling, deadline: now + w.debounce, ..w },
            WatchActionView::Wait(Some(now + w.debounce)),
        ),
{
}

/// After a conflict, the timer does not pull again on its own: it asks whether
/// the report is still open, and only an answer that it is closed resumes.
/// Not knowing counts as still open.
pub proof fn law_a_paused_watcher_asks_before_pulling(w: WatchView, e: WatchEvent)
    requires
        w.wf(),
        w.accepts(e),
    ensures
        w.phase == Phase::Idle && w.paused && (e matches WatchEvent::Woke { wake, .. }
            && wake is Timeout) ==> w.advance(e).1 == WatchActionView::Ask,
        w.phase == Phase::Checking ==> (w.advance(e).1 == WatchActionView::Sync <==> (e matches WatchEvent::Answered {
            open,
            ..
        } && open == Ok::<bool, String>(false))),
{
}

/// A pass that needs a person pauses the timer; one that fails keeps a recheck
/// due `recheck` after it; one that succeeds with no fetch interval leaves the
/// watcher waiting for file changes alone.
pub proof fn law_what_a_pass_leaves_due(w: WatchView, outcome: Outcome, now: u128)
    requires
        w.wf(),
        w.accepts(WatchEvent::Synced { outcome, now }),
    ensures
        ({
            let (next, act) = w.advance(WatchEvent::Synced { outcome, now });
            &&& next.paused == (outcome@ is NeedsHuman)
            &&& act == WatchActionView::Wait(next.due())
            &&& outcome@.is_failure() ==> next.due() is Some && next.due()->0 <= now + w.recheck
            &&& !outcome@.is_failure() && w.fetch_every is None ==> next.due() is None
            &&& w.fetch_every matches Some(i) ==> next.due() is Some && next.due()->0 <= now + i
        }),
{
}

/// The watcher stops exactly when the file watcher goes away.
pub proof fn law_the_watcher_stops_only_when_closed(w: WatchView, e: WatchEvent)
    requires
        w.wf(),
        w.accepts(e),
    ensures
        w.advance(e).1 == WatchActionView::Stop <==> (e matches WatchEvent::Woke { wake, .. }
            && wake is Closed),
{
}


/// Only a pass lifts the pause: whatever the watcher hears other than a pass
/// ending, be it a wake, file events, or an answer about the report (open,
/// closed, or unknown), leaves `paused` as it was.
pub proof fn law_only_a_pass_lifts_the_pause(w: WatchView, e: WatchEvent)
    requires
        w.wf(),
        w.accepts(e),
        w.phase != Phase::Syncing,
    ensures
        w.advance(e).0.paused == w.paused,
{
}

/// While the report stays open the watcher keeps asking and does not pull:
/// paused and asked, an answer that the report is still open, or that cannot
/// be had, sends it back to waiting still paused, and the next timer wake asks
/// again.
pub proof fn law_a_paused_watcher_keeps_asking(w: WatchView, open: Result<bool, String>, t1: u128, t2: u128)
    requires
        w.wf(),
        w.phase == Phase::Checking,
        w.paused,
        t1 <= DURATION_MAX_NANOS,
        t2 <= DURATION_MAX_NANOS,
        open != Ok::<bool, String>(false),
    ensures
        ({
            let (w1, a1) = w.advance(WatchEvent::Answered { open, now: t1 });
            &&& w1.paused
            &&& w1.phase == Phase::Idle
            &&& a1 is Wait
            &&& w1.advance(WatchEvent::Woke { wake: Wake::Timeout, now: t2 }).1 == WatchActionView::Ask
        }),
{
}
} // verus!
