//! One sync pass over a repository, as a state machine.
//!
//! A pass commits what changed, then tries to publish it: fetch, rebase onto the
//! remote when it moved, push, and on failure back off and try again. The pass
//! decides; whoever drives it runs each `git` command it asks for, sleeps when it
//! asks, and hands back what happened. `SyncPass::step` makes that decision and
//! `PassView::advance` states it.
use vstd::prelude::*;

use crate::config::{Repo, Retry, Span, DURATION_MAX_NANOS};
use crate::git::{
    message_of, push_args, stdout_of, succeeded, trimmed_or_message, Git, Invocation, Output, Ran,
};
use crate::subject::{commit_subject, subject_for};
use crate::text::{contains, contains_str, lowercase, nonempty_lines, owned, to_lowercase};

verus! {

/// How a sync pass ended.
#[derive(Debug, Clone, PartialEq, Eq)]
pub enum Outcome {
    /// Nothing to commit, push or pull.
    Nothing,
    /// Commits from the remote were rebased in and nothing needed pushing.
    Pulled,
    /// The branch was pushed; `subject` is the commit made for it, if any.
    Pushed { subject: Option<String> },
    /// The push cannot land without a person: rejected without pulling, or a
    /// rebase that conflicts.
    NeedsHuman,
    /// The remote could not be reached before the retries ran out.
    Unreachable,
}

/// An `Outcome` with its subject as characters.
pub enum OutcomeView {
    Nothing,
    Pulled,
    Pushed { subject: Option<Seq<char>> },
    NeedsHuman,
    Unreachable,
}

impl OutcomeView {
    /// Whether the outcome is one that gets reported.
    pub open spec fn is_failure(self) -> bool {
        self is NeedsHuman || self is Unreachable
    }
}

impl View for Outcome {
    type V = OutcomeView;

    open spec fn view(&self) -> OutcomeView {
        match self {
            Outcome::Nothing => OutcomeView::Nothing,
            Outcome::Pulled => OutcomeView::Pulled,
            Outcome::Pushed { subject } => OutcomeView::Pushed { subject: subject.deep_view() },
            Outcome::NeedsHuman => OutcomeView::NeedsHuman,
            Outcome::Unreachable => OutcomeView::Unreachable,
        }
    }
}

impl Outcome {
    /// Whether the pass failed: it needs a person, or the remote was unreachable.
    pub fn is_failure(&self) -> (f: bool)
        ensures
            f == self@.is_failure(),
    {
        match self {
            Outcome::NeedsHuman => true,
            Outcome::Unreachable => true,
            _ => false,
        }
    }
}

/// The `git` commands a pass runs.
#[derive(Debug, Clone, PartialEq, Eq)]
pub enum Command {
    Branch,
    HasUpstream,
    StatusPorcelain,
    Unpushed,
    Behind,
    StagedFiles,
    AddAll,
    Commit(String),
    Push { remote: String, branch: String, set_upstream: bool },
    Fetch { remote: String },
    PullRebase { remote: String, branch: String },
    RebaseAbort,
}

/// A `Command` with its strings as characters.
pub enum CommandView {
    Branch,
    HasUpstream,
    StatusPorcelain,
    Unpushed,
    Behind,
    StagedFiles,
    AddAll,
    Commit(Seq<char>),
    Push { remote: Seq<char>, branch: Seq<char>, set_upstream: bool },
    Fetch { remote: Seq<char> },
    PullRebase { remote: Seq<char>, branch: Seq<char> },
    RebaseAbort,
}

impl View for Command {
    type V = CommandView;

    open spec fn view(&self) -> CommandView {
        match self {
            Command::Branch => CommandView::Branch,
            Command::HasUpstream => CommandView::HasUpstream,
            Command::StatusPorcelain => CommandView::StatusPorcelain,
            Command::Unpushed => CommandView::Unpushed,
            Command::Behind => CommandView::Behind,
            Command::StagedFiles => CommandView::StagedFiles,
            Command::AddAll => CommandView::AddAll,
            Command::Commit(s) => CommandView::Commit(s@),
            Command::Push { remote, branch, set_upstream } => CommandView::Push {
                remote: remote@,
                branch: branch@,
                set_upstream: *set_upstream,
            },
            Command::Fetch { remote } => CommandView::Fetch { remote: remote@ },
            Command::PullRebase { remote, branch } => CommandView::PullRebase {
                remote: remote@,
                branch: branch@,
            },
            Command::RebaseAbort => CommandView::RebaseAbort,
        }
    }
}

/// The arguments after `git -C <dir>` that a command runs with.
pub open spec fn command_args(c: CommandView) -> Seq<Seq<char>> {
    match c {
        CommandView::Branch => seq!["rev-parse"@, "--abbrev-ref"@, "HEAD"@],
        CommandView::HasUpstream => seq![
            "rev-parse"@,
            "--abbrev-ref"@,
            "--symbolic-full-name"@,
            "@{upstream}"@,
        ],
        CommandView::StatusPorcelain => seq!["status"@, "--porcelain"@],
        CommandView::Unpushed => seq!["log"@, "--oneline"@, "@{upstream}..HEAD"@],
        CommandView::Behind => seq!["log"@, "--oneline"@, "HEAD..@{upstream}"@],
        CommandView::StagedFiles => seq!["diff"@, "--cached"@, "--name-only"@],
        CommandView::AddAll => seq!["add"@, "-A"@],
        CommandView::Commit(s) => seq!["commit"@, "-m"@, s],
        CommandView::Push { remote, branch, set_upstream } => push_args(
            remote,
            branch,
            set_upstream,
        ),
        CommandView::Fetch { remote } => seq!["fetch"@, remote],
        CommandView::PullRebase { remote, branch } => seq![
            "pull"@,
            "--rebase"@,
            "--autostash"@,
            remote,
            branch,
        ],
        CommandView::RebaseAbort => seq!["rebase"@, "--abort"@],
    }
}

/// The invocation that runs `command` in `git`'s work tree.
pub fn invocation_for(git: &Git, command: &Command) -> (inv: Invocation)
    ensures
        (inv.argv(), inv.vars()) == git.invocation(command_args(command@)),
{
    match command {
        Command::Branch => git.branch(),
        Command::HasUpstream => git.has_upstream(),
        Command::StatusPorcelain => git.status_porcelain(),
        Command::Unpushed => git.unpushed(),
        Command::Behind => git.behind(),
        Command::StagedFiles => git.staged_files(),
        Command::AddAll => git.add_all(),
        Command::Commit(s) => git.commit(s.as_str()),
        Command::Push { remote, branch, set_upstream } => git.push(
            remote.as_str(),
            branch.as_str(),
            *set_upstream,
        ),
        Command::Fetch { remote } => git.fetch(remote.as_str()),
        Command::PullRebase { remote, branch } => git.pull_rebase(remote.as_str(), branch.as_str()),
        Command::RebaseAbort => git.rebase_abort(),
    }
}

/// What a pass asks of whoever drives it.
#[derive(Debug, Clone, PartialEq, Eq)]
pub enum Action {
    /// Run this command and hand back what it did.
    Run(Command),
    /// Wait this long, then hand back `Event::Slept`.
    Sleep(Span),
    /// The pass is over. `report` is the error to file an issue about, present
    /// exactly when the outcome is a failure.
    Finish { outcome: Outcome, report: Option<String> },
}

/// An `Action` with its strings as characters.
pub enum ActionView {
    Run(CommandView),
    Sleep(u128),
    Finish { outcome: OutcomeView, report: Option<Seq<char>> },
}

impl View for Action {
    type V = ActionView;

    open spec fn view(&self) -> ActionView {
        match self {
            Action::Run(c) => ActionView::Run(c@),
            Action::Sleep(d) => ActionView::Sleep(d.nanos),
            Action::Finish { outcome, report } => ActionView::Finish {
                outcome: outcome@,
                report: report.deep_view(),
            },
        }
    }
}

/// What happened since the last action.
pub enum Event {
    /// The pass is starting.
    Start,
    /// The last command ran, or could not be run.
    Ran(Ran),
    /// The last sleep is over.
    Slept,
}

/// The command answer an event carries.
pub open spec fn ran_of(e: Event) -> Ran {
    match e {
        Event::Ran(r) => r,
        _ => arbitrary(),
    }
}

/// Where a pass stands: which answer it waits for.
#[derive(Clone, Copy, PartialEq, Eq, Structural)]
pub enum Step {
    Start,
    Branch,
    Upstream,
    Status,
    Unpushed,
    AddAll,
    Staged,
    Commit,
    Fetch,
    FetchFailed,
    Behind,
    Rebase,
    Abort,
    BeforePush,
    Push,
    RejectRebase,
    Repush,
    Sleep,
    Done,
}

/// Whether lower-cased push output marks a rejection for being behind the
/// remote, which a rebase can fix. A bare `rejected` is not enough:
/// `! [remote rejected]` is a hook or a protected branch refusing the push,
/// which no rebase fixes.
pub open spec fn rejection_marked(lower: Seq<char>) -> bool {
    contains(lower, "[rejected]"@) || contains(lower, "fetch first"@) || contains(
        lower,
        "non-fast-forward"@,
    )
}

/// Whether `stderr` is a push rejected for being behind the remote, read
/// without regard to case.
pub open spec fn is_rejection_text(stderr: Seq<char>) -> bool {
    rejection_marked(lowercase(stderr))
}

/// Whether already lower-cased push output marks a rejection.
pub fn is_rejection_lowered(lower: &str) -> (r: bool)
    ensures
        r == rejection_marked(lower@),
{
    contains_str(lower, "[rejected]") || contains_str(lower, "fetch first") || contains_str(
        lower,
        "non-fast-forward",
    )
}

/// Whether a push's error output says it was rejected for being behind.
pub fn is_rejection(stderr: &str) -> (r: bool)
    ensures
        r == is_rejection_text(stderr@),
{
    let lower = to_lowercase(stderr);
    is_rejection_lowered(lower.as_str())
}

/// A command's output counts as a rejection: it failed, and said so.
pub open spec fn rejected(out: Output) -> bool {
    !out.success && is_rejection_text(message_of(out.stderr@, out.stdout@))
}

/// The smaller of `a` and `b`.
pub open spec fn min_of(a: int, b: int) -> int {
    if a < b {
        a
    } else {
        b
    }
}

/// The `k`-th wait of the retry ladder: `base`, then doubling, never above
/// `max`, the cap on a single wait.
pub open spec fn backoff(base: int, max: int, k: nat) -> int
    decreases k,
{
    if k == 0 {
        min_of(base, max)
    } else {
        let twice = 2 * backoff(base, max, (k - 1) as nat);
        if twice < max {
            twice
        } else {
            max
        }
    }
}

/// `a + b`, or `usize::MAX` when that does not fit.
pub open spec fn add_capped(a: usize, b: usize) -> usize {
    if a + b <= usize::MAX {
        (a + b) as usize
    } else {
        usize::MAX
    }
}

/// A sync pass as values.
pub struct PassView {
    pub remote: Seq<char>,
    pub pull: bool,
    pub attempts: u32,
    pub base: u128,
    pub max: u128,
    pub step: Step,
    pub branch: Seq<char>,
    pub set_upstream: bool,
    pub dirty: bool,
    pub subject: Option<Seq<char>>,
    pub attempt: u64,
    pub delay: u128,
    pub last_error: Seq<char>,
    pub pulled: usize,
    pub behind: usize,
    pub pending: Seq<char>,
}

/// Whether a step lies inside the retry ladder.
pub open spec fn in_ladder(step: Step) -> bool {
    step == Step::Fetch || step == Step::FetchFailed || step == Step::Behind || step == Step::Rebase
        || step == Step::Abort || step == Step::BeforePush || step == Step::Push || step
        == Step::RejectRebase || step == Step::Repush || step == Step::Sleep
}

impl PassView {
    /// The attempt counter and the wait agree with the ladder so far.
    pub open spec fn ladder_ok(self) -> bool {
        &&& 1 <= self.attempt <= self.attempts + 1
        &&& self.delay == backoff(self.base as int, self.max as int, (self.attempt - 1) as nat)
    }

    /// The invariant every pass keeps.
    pub open spec fn wf(self) -> bool {
        &&& self.max <= DURATION_MAX_NANOS
        &&& self.base <= DURATION_MAX_NANOS
        &&& in_ladder(self.step) ==> self.ladder_ok() && self.attempt <= self.attempts
        &&& self.step == Step::Sleep ==> self.attempt < self.attempts
    }

    /// Whether `e` is the answer this pass waits for. After a sleep the wait
    /// doubles, and `std::time::Duration` panics when that overflows it.
    pub open spec fn accepts(self, e: Event) -> bool {
        match self.step {
            Step::Start => e is Start,
            Step::Sleep => e is Slept && 2 * self.delay <= DURATION_MAX_NANOS,
            Step::Done => false,
            _ => e is Ran,
        }
    }

    pub open spec fn with_step(self, step: Step) -> PassView {
        PassView { step, ..self }
    }

    /// Ask for `c`, and wait at `step` for its answer.
    pub open spec fn run(self, step: Step, c: CommandView) -> (PassView, ActionView) {
        (self.with_step(step), ActionView::Run(c))
    }

    /// End the pass; a failure is reported with `last_error`.
    pub open spec fn finish(self, outcome: OutcomeView, last_error: Seq<char>) -> (
        PassView,
        ActionView,
    ) {
        (
            self.with_step(Step::Done),
            ActionView::Finish {
                outcome,
                report: if outcome.is_failure() {
                    Some(last_error)
                } else {
                    None
                },
            },
        )
    }

    /// End the pass on a command that could not be run or a commit that failed.
    pub open spec fn fail(self, why: Seq<char>) -> (PassView, ActionView) {
        self.finish(OutcomeView::Unreachable, why)
    }

    pub open spec fn push_cmd(self) -> CommandView {
        CommandView::Push { remote: self.remote, branch: self.branch, set_upstream: self.set_upstream }
    }

    pub open spec fn pull_cmd(self) -> CommandView {
        CommandView::PullRebase { remote: self.remote, branch: self.branch }
    }

    /// Without pulling, a clean tree with nothing unpushed is left alone.
    pub open spec fn decide(self, unpushed: bool) -> (PassView, ActionView) {
        if !self.pull && !self.dirty && !unpushed {
            self.finish(OutcomeView::Nothing, seq![])
        } else {
            self.run(Step::AddAll, CommandView::AddAll)
        }
    }

    /// Enter the retry ladder at its first attempt.
    pub open spec fn begin(self) -> (PassView, ActionView) {
        PassView {
            delay: min_of(self.base as int, self.max as int) as u128,
            last_error: seq![],
            pulled: 0,
            attempt: 1,
            ..self
        }.start_attempt()
    }

    /// One attempt: fetch first when pulling onto a published branch.
    pub open spec fn start_attempt(self) -> (PassView, ActionView) {
        if self.attempt > self.attempts {
            self.finish(OutcomeView::Unreachable, self.last_error)
        } else if self.pull && !self.set_upstream {
            self.run(Step::Fetch, CommandView::Fetch { remote: self.remote })
        } else {
            self.check_unpushed()
        }
    }

    /// Look for unpushed commits, or push outright when the branch was never published.
    pub open spec fn check_unpushed(self) -> (PassView, ActionView) {
        if !self.set_upstream {
            self.run(Step::BeforePush, CommandView::Unpushed)
        } else {
            self.run(Step::Push, self.push_cmd())
        }
    }

    /// Wait before the next attempt, unless this was the last.
    pub open spec fn retry_later(self) -> (PassView, ActionView) {
        if self.attempt < self.attempts {
            (self.with_step(Step::Sleep), ActionView::Sleep(self.delay))
        } else {
            self.next_attempt()
        }
    }

    pub open spec fn next_attempt(self) -> (PassView, ActionView) {
        PassView { attempt: (self.attempt + 1) as u64, ..self }.start_attempt()
    }

    /// A push that went through ends the pass; one that failed is retried.
    pub open spec fn after_push(self, out: Output) -> (PassView, ActionView) {
        if out.success {
            self.finish(OutcomeView::Pushed { subject: self.subject }, seq![])
        } else {
            PassView { last_error: message_of(out.stderr@, out.stdout@), ..self }.retry_later()
        }
    }

    /// The pass's next state and action, given the answer `e`.
    pub open spec fn advance(self, e: Event) -> (PassView, ActionView) {
        let ran = ran_of(e);
        match self.step {
            Step::Start => self.run(Step::Branch, CommandView::Branch),
            Step::Branch => match trimmed_or_message(ran) {
                Ok(b) => PassView { branch: b, ..self }.run(Step::Upstream, CommandView::HasUpstream),
                Err(why) => self.fail(why),
            },
            Step::Upstream => PassView { set_upstream: !succeeded(ran), ..self }.run(
                Step::Status,
                CommandView::StatusPorcelain,
            ),
            Step::Status => {
                let p = PassView { dirty: nonempty_lines(stdout_of(ran)).len() > 0, ..self };
                if p.set_upstream {
                    p.decide(true)
                } else {
                    p.run(Step::Unpushed, CommandView::Unpushed)
                }
            },
            Step::Unpushed => self.decide(nonempty_lines(stdout_of(ran)).len() > 0),
            Step::AddAll => match ran {
                Err(why) => self.fail(why@),
                Ok(_) => self.run(Step::Staged, CommandView::StagedFiles),
            },
            Step::Staged => {
                let files = nonempty_lines(stdout_of(ran));
                if files.len() > 0 {
                    let s = subject_for(files);
                    PassView { pending: s, ..self }.run(Step::Commit, CommandView::Commit(s))
                } else {
                    self.begin()
                }
            },
            Step::Commit => match ran {
                Err(why) => self.fail(why@),
                Ok(out) => if !out.success {
                    self.fail("commit failed: "@ + message_of(out.stderr@, out.stdout@))
                } else {
                    PassView { subject: Some(self.pending), ..self }.begin()
                },
            },
            Step::Fetch => match ran {
                Err(why) => self.fail(why@),
                Ok(out) => if !out.success {
                    PassView { pending: message_of(out.stderr@, out.stdout@), ..self }.run(
                        Step::FetchFailed,
                        CommandView::Unpushed,
                    )
                } else {
                    self.run(Step::Behind, CommandView::Behind)
                },
            },
            Step::FetchFailed => if nonempty_lines(stdout_of(ran)).len() == 0 {
                self.finish(OutcomeView::Nothing, seq![])
            } else {
                PassView { last_error: self.pending, ..self }.retry_later()
            },
            Step::Behind => {
                let n = nonempty_lines(stdout_of(ran)).len();
                if n > 0 {
                    PassView { behind: n as usize, ..self }.run(Step::Rebase, self.pull_cmd())
                } else {
                    self.check_unpushed()
                }
            },
            Step::Rebase => match ran {
                Err(why) => self.fail(why@),
                Ok(out) => if !out.success {
                    PassView { pending: message_of(out.stderr@, out.stdout@), ..self }.run(
                        Step::Abort,
                        CommandView::RebaseAbort,
                    )
                } else {
                    PassView { pulled: add_capped(self.pulled, self.behind), ..self }.check_unpushed()
                },
            },
            Step::Abort => self.finish(OutcomeView::NeedsHuman, self.pending),
            Step::BeforePush => if nonempty_lines(stdout_of(ran)).len() == 0 {
                if self.pulled > 0 {
                    self.finish(OutcomeView::Pulled, seq![])
                } else {
                    self.finish(OutcomeView::Nothing, seq![])
                }
            } else {
                self.run(Step::Push, self.push_cmd())
            },
            Step::Push => match ran {
                Err(why) => self.fail(why@),
                Ok(out) => if rejected(out) {
                    if !self.pull {
                        self.finish(OutcomeView::NeedsHuman, message_of(out.stderr@, out.stdout@))
                    } else {
                        self.run(Step::RejectRebase, self.pull_cmd())
                    }
                } else {
                    self.after_push(out)
                },
            },
            Step::RejectRebase => match ran {
                Err(why) => self.fail(why@),
                Ok(out) => if !out.success {
                    PassView { pending: message_of(out.stderr@, out.stdout@), ..self }.run(
                        Step::Abort,
                        CommandView::RebaseAbort,
                    )
                } else {
                    let p = PassView { set_upstream: false, ..self };
                    p.run(Step::Repush, p.push_cmd())
                },
            },
            Step::Repush => match ran {
                Err(why) => self.fail(why@),
                Ok(out) => if rejected(out) {
                    self.finish(OutcomeView::NeedsHuman, message_of(out.stderr@, out.stdout@))
                } else {
                    self.after_push(out)
                },
            },
            Step::Sleep => {
                let twice = 2 * self.delay;
                let next = if twice < self.max {
                    twice as u128
                } else {
                    self.max
                };
                PassView { delay: next, ..self }.next_attempt()
            },
            Step::Done => (self, arbitrary()),
        }
    }
}

/// A sync pass in progress.
pub struct SyncPass {
    remote: String,
    pull: bool,
    attempts: u32,
    base: u128,
    max: u128,
    step: Step,
    branch: String,
    set_upstream: bool,
    dirty: bool,
    subject: Option<String>,
    attempt: u64,
    delay: u128,
    last_error: String,
    pulled: usize,
    behind: usize,
    pending: String,
}

impl View for SyncPass {
    type V = PassView;

    closed spec fn view(&self) -> PassView {
        PassView {
            remote: self.remote@,
            pull: self.pull,
            attempts: self.attempts,
            base: self.base,
            max: self.max,
            step: self.step,
            branch: self.branch@,
            set_upstream: self.set_upstream,
            dirty: self.dirty,
            subject: self.subject.deep_view(),
            attempt: self.attempt,
            delay: self.delay,
            last_error: self.last_error@,
            pulled: self.pulled,
            behind: self.behind,
            pending: self.pending@,
        }
    }
}

fn copy_subject(s: &Option<String>) -> (r: Option<String>)
    ensures
        r.deep_view() == s.deep_view(),
{
    match s {
        Some(t) => Some(owned(t.as_str())),
        None => None,
    }
}

impl SyncPass {
    /// A pass over `repo` with the retry ladder `retry`, about to start.
    pub fn new(repo: &Repo, retry: &Retry) -> (pass: SyncPass)
        requires
            retry.base.nanos <= DURATION_MAX_NANOS,
            retry.max.nanos <= DURATION_MAX_NANOS,
        ensures
            pass@.wf(),
            pass@.step == Step::Start,
            pass@.remote == repo.remote@,
            pass@.pull == repo.pull,
            pass@.attempts == retry.attempts,
            pass@.base == retry.base.nanos,
            pass@.max == retry.max.nanos,
            pass@.branch == Seq::<char>::empty(),
            !pass@.set_upstream,
            !pass@.dirty,
            pass@.subject is None,
            pass@.attempt == 0,
            pass@.delay == retry.base.nanos,
            pass@.last_error == Seq::<char>::empty(),
            pass@.pulled == 0,
            pass@.behind == 0,
            pass@.pending == Seq::<char>::empty(),
    {
        SyncPass {
            remote: owned(repo.remote.as_str()),
            pull: repo.pull,
            attempts: retry.attempts,
            base: retry.base.nanos,
            max: retry.max.nanos,
            step: Step::Start,
            branch: String::new(),
            set_upstream: false,
            dirty: false,
            subject: None,
            attempt: 0,
            delay: retry.base.nanos,
            last_error: String::new(),
            pulled: 0,
            behind: 0,
            pending: String::new(),
        }
    }

    /// Whether the pass has ended.
    pub fn is_done(&self) -> (d: bool)
        ensures
            d == (self@.step == Step::Done),
    {
        self.step == Step::Done
    }

    /// Whether the wait can double without overflowing a `std::time::Duration`.
    pub fn can_double(&self) -> (ok: bool)
        ensures
            ok == (2 * self@.delay <= DURATION_MAX_NANOS),
    {
        self.delay <= DURATION_MAX_NANOS / 2
    }

    /// How many upstream commits the pass rebased in.
    pub fn pulled(&self) -> (n: usize)
        ensures
            n == self@.pulled,
    {
        self.pulled
    }

    fn push_cmd(&self) -> (c: Command)
        ensures
            c@ == self@.push_cmd(),
    {
        Command::Push {
            remote: owned(self.remote.as_str()),
            branch: owned(self.branch.as_str()),
            set_upstream: self.set_upstream,
        }
    }

    fn pull_cmd(&self) -> (c: Command)
        ensures
            c@ == self@.pull_cmd(),
    {
        Command::PullRebase {
            remote: owned(self.remote.as_str()),
            branch: owned(self.branch.as_str()),
        }
    }

    fn run(&mut self, step: Step, c: Command) -> (a: Action)
        ensures
            (final(self)@, a@) == old(self)@.run(step, c@),
    {
        self.step = step;
        Action::Run(c)
    }

    fn finish(&mut self, outcome: Outcome, last_error: String) -> (a: Action)
        ensures
            (final(self)@, a@) == old(self)@.finish(outcome@, last_error@),
    {
        self.step = Step::Done;
        let report = if outcome.is_failure() {
            Some(last_error)
        } else {
            None
        };
        Action::Finish { outcome, report }
    }

    fn fail(&mut self, why: String) -> (a: Action)
        ensures
            (final(self)@, a@) == old(self)@.fail(why@),
    {
        self.finish(Outcome::Unreachable, why)
    }

    fn decide(&mut self, unpushed: bool) -> (a: Action)
        ensures
            (final(self)@, a@) == old(self)@.decide(unpushed),
    {
        if !self.pull && !self.dirty && !unpushed {
            self.finish(Outcome::Nothing, String::new())
        } else {
            self.run(Step::AddAll, Command::AddAll)
        }
    }

    fn check_unpushed(&mut self) -> (a: Action)
        ensures
            (final(self)@, a@) == old(self)@.check_unpushed(),
    {
        if !self.set_upstream {
            self.run(Step::BeforePush, Command::Unpushed)
        } else {
            let c = self.push_cmd();
            self.run(Step::Push, c)
        }
    }

    fn start_attempt(&mut self) -> (a: Action)
        ensures
            (final(self)@, a@) == old(self)@.start_attempt(),
    {
        if self.attempt > self.attempts as u64 {
            let why = owned(self.last_error.as_str());
            self.finish(Outcome::Unreachable, why)
        } else if self.pull && !self.set_upstream {
            let remote = owned(self.remote.as_str());
            self.run(Step::Fetch, Command::Fetch { remote })
        } else {
            self.check_unpushed()
        }
    }

    fn begin(&mut self) -> (a: Action)
        ensures
            (final(self)@, a@) == old(self)@.begin(),
    {
        self.delay = if self.base < self.max {
            self.base
        } else {
            self.max
        };
        self.last_error = String::new();
        self.pulled = 0;
        self.attempt = 1;
        self.start_attempt()
    }

    fn next_attempt(&mut self) -> (a: Action)
        requires
            old(self)@.attempt <= old(self)@.attempts,
        ensures
            (final(self)@, a@) == old(self)@.next_attempt(),
    {
        self.attempt = self.attempt + 1;
        self.start_attempt()
    }

    fn retry_later(&mut self) -> (a: Action)
        requires
            old(self)@.attempt <= old(self)@.attempts,
        ensures
            (final(self)@, a@) == old(self)@.retry_later(),
    {
        if self.attempt < self.attempts as u64 {
            self.step = Step::Sleep;
            Action::Sleep(Span { nanos: self.delay })
        } else {
            self.next_attempt()
        }
    }

    fn after_push(&mut self, out: &Output) -> (a: Action)
        requires
            old(self)@.attempt <= old(self)@.attempts,
        ensures
            (final(self)@, a@) == old(self)@.after_push(*out),
    {
        if out.success {
            let subject = copy_subject(&self.subject);
            self.finish(Outcome::Pushed { subject }, String::new())
        } else {
            self.last_error = out.message();
            self.retry_later()
        }
    }

    /// The next action, given the answer `event` to the last one.
    pub fn step(&mut self, event: Event) -> (action: Action)
        requires
            old(self)@.wf(),
            old(self)@.accepts(event),
        ensures
            (final(self)@, action@) == old(self)@.advance(event),
            final(self)@.wf(),
    {
        proof {
            lemma_advance_keeps_wf(self@, event);
        }
        match event {
            Event::Start => self.run(Step::Branch, Command::Branch),
            Event::Slept => {
                let twice = 2 * self.delay;
                self.delay = if twice < self.max {
                    twice
                } else {
                    self.max
                };
                self.next_attempt()
            },
            Event::Ran(ran) => self.on_ran(ran),
        }
    }

    fn on_ran(&mut self, ran: Ran) -> (action: Action)
        requires
            old(self)@.wf(),
            old(self)@.accepts(Event::Ran(ran)),
        ensures
            (final(self)@, action@) == old(self)@.advance(Event::Ran(ran)),
    {
        match self.step {
            Step::Branch => match Git::read_branch(&ran) {
                Ok(b) => {
                    self.branch = b;
                    self.run(Step::Upstream, Command::HasUpstream)
                },
                Err(why) => self.fail(why),
            },
            Step::Upstream => {
                self.set_upstream = !Git::read_upstream(&ran);
                self.run(Step::Status, Command::StatusPorcelain)
            },
            Step::Status => {
                let lines = Git::read_lines(&ran);
                self.dirty = lines.len() > 0;
                if self.set_upstream {
                    self.decide(true)
                } else {
                    self.run(Step::Unpushed, Command::Unpushed)
                }
            },
            Step::Unpushed => {
                let lines = Git::read_lines(&ran);
                self.decide(lines.len() > 0)
            },
            Step::AddAll => match ran {
                Err(why) => self.fail(why),
                Ok(_) => self.run(Step::Staged, Command::StagedFiles),
            },
            Step::Staged => {
                let files = Git::read_lines(&ran);
                if files.len() > 0 {
                    let s = commit_subject(&files);
                    let c = Command::Commit(owned(s.as_str()));
                    self.pending = s;
                    self.run(Step::Commit, c)
                } else {
                    self.begin()
                }
            },
            Step::Commit => match ran {
                Err(why) => self.fail(why),
                Ok(out) => if !out.success {
                    let mut why = owned("commit failed: ");
                    let m = out.message();
                    why.append(m.as_str());
                    self.fail(why)
                } else {
                    self.subject = Some(owned(self.pending.as_str()));
                    self.begin()
                },
            },
            Step::Fetch => match ran {
                Err(why) => self.fail(why),
                Ok(out) => if !out.success {
                    self.pending = out.message();
                    self.run(Step::FetchFailed, Command::Unpushed)
                } else {
                    self.run(Step::Behind, Command::Behind)
                },
            },
            Step::FetchFailed => {
                let lines = Git::read_lines(&ran);
                if lines.len() == 0 {
                    self.finish(Outcome::Nothing, String::new())
                } else {
                    self.last_error = owned(self.pending.as_str());
                    self.retry_later()
                }
            },
            Step::Behind => {
                let lines = Git::read_lines(&ran);
                if lines.len() > 0 {
                    self.behind = lines.len();
                    let c = self.pull_cmd();
                    self.run(Step::Rebase, c)
                } else {
                    self.check_unpushed()
                }
            },
            Step::Rebase => match ran {
                Err(why) => self.fail(why),
                Ok(out) => if !out.success {
                    self.pending = out.message();
                    self.run(Step::Abort, Command::RebaseAbort)
                } else {
                    self.pulled = self.pulled.saturating_add(self.behind);
                    self.check_unpushed()
                },
            },
            Step::Abort => {
                let why = owned(self.pending.as_str());
                self.finish(Outcome::NeedsHuman, why)
            },
            Step::BeforePush => {
                let lines = Git::read_lines(&ran);
                if lines.len() == 0 {
                    if self.pulled > 0 {
                        self.finish(Outcome::Pulled, String::new())
                    } else {
                        self.finish(Outcome::Nothing, String::new())
                    }
                } else {
                    let c = self.push_cmd();
                    self.run(Step::Push, c)
                }
            },
            Step::Push => match ran {
                Err(why) => self.fail(why),
                Ok(out) => {
                    let m = out.message();
                    if !out.success && is_rejection(m.as_str()) {
                        if !self.pull {
                            self.finish(Outcome::NeedsHuman, m)
                        } else {
                            let c = self.pull_cmd();
                            self.run(Step::RejectRebase, c)
                        }
                    } else {
                        self.after_push(&out)
                    }
                },
            },
            Step::RejectRebase => match ran {
                Err(why) => self.fail(why),
                Ok(out) => if !out.success {
                    self.pending = out.message();
                    self.run(Step::Abort, Command::RebaseAbort)
                } else {
                    self.set_upstream = false;
                    let c = self.push_cmd();
                    self.run(Step::Repush, c)
                },
            },
            Step::Repush => match ran {
                Err(why) => self.fail(why),
                Ok(out) => {
                    let m = out.message();
                    if !out.success && is_rejection(m.as_str()) {
                        self.finish(Outcome::NeedsHuman, m)
                    } else {
                        self.after_push(&out)
                    }
                },
            },
            _ => {
                proof {
                    assert(false);
                }
                self.run(Step::Done, Command::RebaseAbort)
            },
        }
    }
}

// ------------------------------------------------------------------------
// The invariant
// ------------------------------------------------------------------------

proof fn lemma_start_attempt_wf(p: PassView)
    requires
        p.max <= DURATION_MAX_NANOS,
        p.base <= DURATION_MAX_NANOS,
        p.attempt > p.attempts || p.ladder_ok(),
    ensures
        p.start_attempt().0.wf(),
{
}

proof fn lemma_retry_later_wf(p: PassView)
    requires
        p.max <= DURATION_MAX_NANOS,
        p.base <= DURATION_MAX_NANOS,
        p.ladder_ok(),
        p.attempt <= p.attempts,
    ensures
        p.retry_later().0.wf(),
{
    if p.attempt >= p.attempts {
        lemma_start_attempt_wf(PassView { attempt: (p.attempt + 1) as u64, ..p });
    }
}

proof fn lemma_begin_wf(p: PassView)
    requires
        p.max <= DURATION_MAX_NANOS,
        p.base <= DURATION_MAX_NANOS,
    ensures
        p.begin().0.wf(),
{
    let q = PassView {
        delay: min_of(p.base as int, p.max as int) as u128,
        last_error: seq![],
        pulled: 0,
        attempt: 1,
        ..p
    };
    assert(q.ladder_ok());
    lemma_start_attempt_wf(q);
}

/// Every step keeps the invariant.
pub proof fn lemma_advance_keeps_wf(p: PassView, e: Event)
    requires
        p.wf(),
        p.accepts(e),
    ensures
        p.advance(e).0.wf(),
{
    let ran = ran_of(e);
    match p.step {
        Step::Staged => {
            lemma_begin_wf(p);
        },
        Step::Commit => {
            lemma_begin_wf(PassView { subject: Some(p.pending), ..p });
        },
        Step::FetchFailed => {
            lemma_retry_later_wf(PassView { last_error: p.pending, ..p });
        },
        Step::Push | Step::Repush => {
            if let Ok(out) = ran {
                lemma_retry_later_wf(
                    PassView { last_error: message_of(out.stderr@, out.stdout@), ..p },
                );
            }
        },
        Step::Sleep => {
            let twice = 2 * p.delay;
            let next = if twice < p.max {
                twice as u128
            } else {
                p.max
            };
            let q = PassView { delay: next, attempt: (p.attempt + 1) as u64, ..p };
            assert(q.delay == backoff(q.base as int, q.max as int, (q.attempt - 1) as nat));
            lemma_start_attempt_wf(q);
        },
        _ => {},
    }
}


// ------------------------------------------------------------------------
// Laws of a pass
// ------------------------------------------------------------------------

/// `2` to the power `k`.
pub open spec fn pow2(k: nat) -> int
    decreases k,
{
    if k == 0 {
        1
    } else {
        2 * pow2((k - 1) as nat)
    }
}

/// Backing off doubles the wait each time and never exceeds `max`: the `k`-th
/// wait is `base * 2^k`, capped at `max`, the first one included.
pub proof fn law_backoff_doubles_up_to_max(base: int, max: int, k: nat)
    requires
        0 <= base,
        0 <= max,
    ensures
        backoff(base, max, k) == if base * pow2(k) < max {
            base * pow2(k)
        } else {
            max
        },
    decreases k,
{
    if k > 0 {
        law_backoff_doubles_up_to_max(base, max, (k - 1) as nat);
        lemma_pow2_positive((k - 1) as nat);
        let prev = base * pow2((k - 1) as nat);
        assert(base * pow2(k) == 2 * prev) by (nonlinear_arith)
            requires
                pow2(k) == 2 * pow2((k - 1) as nat),
                prev == base * pow2((k - 1) as nat),
        ;
        assert(prev >= 0) by (nonlinear_arith)
            requires
                base >= 0,
                pow2((k - 1) as nat) >= 1,
                prev == base * pow2((k - 1) as nat),
        ;
    }
}

proof fn lemma_pow2_positive(k: nat)
    ensures
        pow2(k) >= 1,
    decreases k,
{
    if k > 0 {
        lemma_pow2_positive((k - 1) as nat);
    }
}

/// A pass waits only between attempts, never after the last one, and the wait
/// during attempt `a` is the `(a - 1)`-th step of the backoff.
pub proof fn law_waits_follow_the_backoff(p: PassView, e: Event)
    requires
        p.wf(),
        p.accepts(e),
    ensures
        p.advance(e).1 is Sleep ==> {
            &&& p.advance(e).0.step == Step::Sleep
            &&& p.advance(e).0.attempt < p.attempts
            &&& p.advance(e).1->Sleep_0 == backoff(
                p.base as int,
                p.max as int,
                (p.advance(e).0.attempt - 1) as nat,
            )
        },
{
    lemma_advance_keeps_wf(p, e);
    if p.advance(e).1 is Sleep {
        lemma_sleep_only_from_retry(p, e);
    }
}

proof fn lemma_sleep_only_from_retry(p: PassView, e: Event)
    requires
        p.wf(),
        p.accepts(e),
        p.advance(e).1 is Sleep,
    ensures
        p.advance(e).1->Sleep_0 == p.advance(e).0.delay,
        p.advance(e).0.step == Step::Sleep,
{
}

/// A pass files a report exactly when it ends in failure.
pub proof fn law_reports_exactly_the_failures(p: PassView, e: Event)
    requires
        p.wf(),
        p.accepts(e),
    ensures
        p.advance(e).1 matches ActionView::Finish { outcome, report } ==> (report is Some
            <==> outcome.is_failure()),
        p.advance(e).1 is Finish <==> p.advance(e).0.step == Step::Done,
{
}

/// How far a pass is from its end.
pub open spec fn rank(p: PassView) -> int {
    let left = p.attempts + 1 - p.attempt;
    match p.step {
        Step::Start => 10 * (p.attempts + 2) + 8,
        Step::Branch => 10 * (p.attempts + 2) + 7,
        Step::Upstream => 10 * (p.attempts + 2) + 6,
        Step::Status => 10 * (p.attempts + 2) + 5,
        Step::Unpushed => 10 * (p.attempts + 2) + 4,
        Step::AddAll => 10 * (p.attempts + 2) + 3,
        Step::Staged => 10 * (p.attempts + 2) + 2,
        Step::Commit => 10 * (p.attempts + 2) + 1,
        Step::Fetch => 10 * left + 9,
        Step::FetchFailed => 10 * left + 8,
        Step::Behind => 10 * left + 8,
        Step::Rebase => 10 * left + 7,
        Step::BeforePush => 10 * left + 6,
        Step::Push => 10 * left + 5,
        Step::RejectRebase => 10 * left + 4,
        Step::Repush => 10 * left + 3,
        Step::Sleep => 10 * left + 2,
        Step::Abort => 10 * left + 1,
        Step::Done => 0,
    }
}

proof fn lemma_start_attempt_rank(p: PassView)
    requires
        p.attempt > p.attempts || p.ladder_ok(),
    ensures
        p.start_attempt().0.step == Step::Done || (0 < rank(p.start_attempt().0) <= 10 * (
        p.attempts + 1 - p.attempt) + 9),
{
}

/// Every pass ends: each step either finishes it or brings it strictly closer
/// to the end, and the retry ladder has only `attempts` rungs.
pub proof fn law_a_pass_always_ends(p: PassView, e: Event)
    requires
        p.wf(),
        p.accepts(e),
    ensures
        rank(p) > 0,
        0 <= rank(p.advance(e).0) < rank(p),
{
    let ran = ran_of(e);
    match p.step {
        Step::Staged | Step::Commit => {
            let q = if p.step == Step::Commit {
                PassView { subject: Some(p.pending), ..p }
            } else {
                p
            };
            let r = PassView {
                delay: min_of(q.base as int, q.max as int) as u128,
                last_error: seq![],
                pulled: 0,
                attempt: 1,
                ..q
            };
            assert(r.ladder_ok());
            lemma_start_attempt_rank(r);
        },
        Step::FetchFailed | Step::Push | Step::Repush => {
            let q = match ran {
                Ok(out) => if p.step == Step::FetchFailed {
                    PassView { last_error: p.pending, ..p }
                } else {
                    PassView { last_error: message_of(out.stderr@, out.stdout@), ..p }
                },
                Err(_) => p,
            };
            if q.attempt >= q.attempts {
                lemma_start_attempt_rank(PassView { attempt: (q.attempt + 1) as u64, ..q });
            }
        },
        Step::Sleep => {
            let twice = 2 * p.delay;
            let next = if twice < p.max {
                twice as u128
            } else {
                p.max
            };
            let q = PassView { delay: next, attempt: (p.attempt + 1) as u64, ..p };
            lemma_start_attempt_rank(q);
        },
        _ => {},
    }
}

/// A rebase that fails is aborted before anything else happens, and the pass
/// then ends needing a person, reporting what the rebase said.
pub proof fn law_a_failed_rebase_is_aborted_and_reported(p: PassView, e: Event)
    requires
        p.wf(),
        p.accepts(e),
    ensures
        (p.step == Step::Rebase || p.step == Step::RejectRebase) && (ran_of(e) matches Ok(out)
            && !out.success) ==> {
            &&& p.advance(e).1 == ActionView::Run(CommandView::RebaseAbort)
            &&& p.advance(e).0.step == Step::Abort
            &&& p.advance(e).0.advance(Event::Ran(arbitrary())).1 == (ActionView::Finish {
                outcome: OutcomeView::NeedsHuman,
                report: Some(message_of(ran_of(e)->Ok_0.stderr@, ran_of(e)->Ok_0.stdout@)),
            })
        },
{
}

/// A push rejected for being behind, with pulling off, is not retried: the
/// pass ends needing a person and reports the rejection.
pub proof fn law_a_rejection_without_pull_needs_a_human(p: PassView, e: Event)
    requires
        p.wf(),
        p.accepts(e),
    ensures
        p.step == Step::Push && !p.pull && (ran_of(e) matches Ok(out) && rejected(out))
            ==> p.advance(e).1 == (ActionView::Finish {
            outcome: OutcomeView::NeedsHuman,
            report: Some(message_of(ran_of(e)->Ok_0.stderr@, ran_of(e)->Ok_0.stdout@)),
        }),
{
}

/// An offline machine with nothing of its own to send is not failing: a fetch
/// that fails with nothing unpushed ends the pass with nothing to report.
pub proof fn law_offline_and_idle_is_not_a_failure(p: PassView, e: Event)
    requires
        p.wf(),
        p.accepts(e),
    ensures
        p.step == Step::FetchFailed && nonempty_lines(stdout_of(ran_of(e))).len() == 0
            ==> p.advance(e).1 == (ActionView::Finish {
            outcome: OutcomeView::Nothing,
            report: None,
        }),
{
}

/// Without pulling, a clean tree with nothing unpushed is left alone: the pass
/// ends before staging anything.
pub proof fn law_nothing_to_do_without_pull(p: PassView, e: Event)
    requires
        p.wf(),
        p.accepts(e),
    ensures
        p.step == Step::Unpushed && !p.pull && !p.dirty && nonempty_lines(
            stdout_of(ran_of(e)),
        ).len() == 0 ==> p.advance(e).1 == (ActionView::Finish {
            outcome: OutcomeView::Nothing,
            report: None,
        }),
{
}

/// What is committed is everything staged, under the subject those files give.
pub proof fn law_the_commit_names_the_staged_files(p: PassView, e: Event)
    requires
        p.wf(),
        p.accepts(e),
    ensures
        p.step == Step::Staged && nonempty_lines(stdout_of(ran_of(e))).len() > 0
            ==> p.advance(e).1 == ActionView::Run(
            CommandView::Commit(subject_for(nonempty_lines(stdout_of(ran_of(e))))),
        ),
{
}

/// With pulling on, a published branch is fetched and rebased onto the remote
/// before anything is pushed: each attempt starts with a fetch, and a push is
/// asked for only once the commits behind have been checked (and rebased), or
/// right after the rebase that a rejection called for. Local changes are
/// committed before the ladder is entered at all.
pub proof fn law_pulling_fetches_before_pushing(p: PassView, e: Event)
    requires
        p.wf(),
        p.accepts(e),
    ensures
        p.pull && !p.set_upstream && p.ladder_ok() && p.attempt <= p.attempts ==> p.start_attempt()
            == p.run(Step::Fetch, CommandView::Fetch { remote: p.remote }),
        p.pull && !p.set_upstream && p.advance(e).1 is Run && p.advance(e).1->Run_0 is Push
            ==> p.step == Step::BeforePush || p.step == Step::RejectRebase,
        p.pull && !p.set_upstream && p.step != Step::BeforePush && p.advance(e).0.step
            == Step::BeforePush ==> p.step == Step::Behind || p.step == Step::Rebase,
        !in_ladder(p.step) && in_ladder(p.advance(e).0.step) ==> p.step == Step::Staged || p.step
            == Step::Commit,
{
}


// ------------------------------------------------------------------------
// Whole passes
// ------------------------------------------------------------------------

/// The state a pass reaches, and the actions it asks for, answering `events`
/// in turn from `p`.
pub open spec fn replay(p: PassView, events: Seq<Event>) -> (PassView, Seq<ActionView>)
    decreases events.len(),
{
    if events.len() == 0 {
        (p, seq![])
    } else {
        let (q, a) = p.advance(events[0]);
        let (r, rest) = replay(q, events.drop_first());
        (r, seq![a] + rest)
    }
}

/// The waits among `actions`, in order.
pub open spec fn waits(actions: Seq<ActionView>) -> Seq<int>
    decreases actions.len(),
{
    if actions.len() == 0 {
        seq![]
    } else {
        let rest = waits(actions.drop_first());
        match actions[0] {
            ActionView::Sleep(d) => seq![d as int] + rest,
            _ => rest,
        }
    }
}

/// How one attempt of the retry ladder fails, short of a rejection.
pub enum Failure {
    /// Pulling onto a published branch: the fetch fails; `unpushed` lists
    /// what is still to send.
    Fetch { fetch: Output, unpushed: Output },
    /// Pulling onto a published branch: the fetch goes through, `behind`
    /// shows nothing to pull, `unpushed` lists what is to send, and the push
    /// fails.
    Push { fetched: Output, behind: Output, unpushed: Output, push: Output },
    /// Not pulling, onto a published branch: `unpushed` lists what is to
    /// send, and the push fails.
    PushOnly { unpushed: Output, push: Output },
    /// A branch never published: the push that would publish it fails.
    Publish { push: Output },
}

/// The way an attempt can fail suits a pass that pulls (`pull`) onto a
/// branch that is published or not (`set_upstream` when it is not).
pub open spec fn suits(f: Failure, pull: bool, set_upstream: bool) -> bool {
    match f {
        Failure::Fetch { .. } | Failure::Push { .. } => pull && !set_upstream,
        Failure::PushOnly { .. } => !pull && !set_upstream,
        Failure::Publish { .. } => set_upstream,
    }
}

/// The attempt fails the way an unreachable remote makes it fail: there is
/// work to send, and the push is not rejected for being behind.
pub open spec fn fails_plainly(f: Failure) -> bool {
    match f {
        Failure::Fetch { fetch, unpushed } => !fetch.success && nonempty_lines(
            stdout_of(Ok(unpushed)),
        ).len() > 0,
        Failure::Push { fetched, behind, unpushed, push } => {
            &&& fetched.success
            &&& nonempty_lines(stdout_of(Ok(behind))).len() == 0
            &&& nonempty_lines(stdout_of(Ok(unpushed))).len() > 0
            &&& !push.success
            &&& !rejected(push)
        },
        Failure::PushOnly { unpushed, push } => {
            &&& nonempty_lines(stdout_of(Ok(unpushed))).len() > 0
            &&& !push.success
            &&& !rejected(push)
        },
        Failure::Publish { push } => !push.success && !rejected(push),
    }
}

/// What the failed command of an attempt said.
pub open spec fn failure_message(f: Failure) -> Seq<char> {
    match f {
        Failure::Fetch { fetch, .. } => message_of(fetch.stderr@, fetch.stdout@),
        Failure::Push { push, .. } => message_of(push.stderr@, push.stdout@),
        Failure::PushOnly { push, .. } => message_of(push.stderr@, push.stdout@),
        Failure::Publish { push } => message_of(push.stderr@, push.stdout@),
    }
}

/// The answers a pass gets during one failing attempt.
pub open spec fn attempt_events(f: Failure) -> Seq<Event> {
    match f {
        Failure::Fetch { fetch, unpushed } => seq![Event::Ran(Ok(fetch)), Event::Ran(Ok(unpushed))],
        Failure::Push { fetched, behind, unpushed, push } => seq![
            Event::Ran(Ok(fetched)),
            Event::Ran(Ok(behind)),
            Event::Ran(Ok(unpushed)),
            Event::Ran(Ok(push)),
        ],
        Failure::PushOnly { unpushed, push } => seq![Event::Ran(Ok(unpushed)), Event::Ran(Ok(push))],
        Failure::Publish { push } => seq![Event::Ran(Ok(push))],
    }
}

/// The answers a pass gets when every attempt in `fs` fails in turn, with the
/// waits between them over.
pub open spec fn ladder_events(fs: Seq<Failure>) -> Seq<Event>
    decreases fs.len(),
{
    if fs.len() == 0 {
        seq![]
    } else if fs.len() == 1 {
        attempt_events(fs[0])
    } else {
        attempt_events(fs[0]) + seq![Event::Slept] + ladder_events(fs.drop_first())
    }
}

proof fn lemma_replay_first(p: PassView, e: Event, rest: Seq<Event>)
    ensures
        replay(p, seq![e] + rest) == (
            replay(p.advance(e).0, rest).0,
            seq![p.advance(e).1] + replay(p.advance(e).0, rest).1,
        ),
{
    assert((seq![e] + rest)[0] == e);
    assert((seq![e] + rest).drop_first() =~= rest);
}

proof fn lemma_replay_append(p: PassView, e1: Seq<Event>, e2: Seq<Event>)
    ensures
        replay(p, e1 + e2) == (
            replay(replay(p, e1).0, e2).0,
            replay(p, e1).1 + replay(replay(p, e1).0, e2).1,
        ),
    decreases e1.len(),
{
    if e1.len() == 0 {
        assert(e1 + e2 =~= e2);
        assert(replay(p, e1).1 + replay(p, e2).1 =~= replay(p, e2).1);
    } else {
        let q = p.advance(e1[0]).0;
        lemma_replay_append(q, e1.drop_first(), e2);
        assert((e1 + e2)[0] == e1[0]);
        assert((e1 + e2).drop_first() =~= e1.drop_first() + e2);
        let a = p.advance(e1[0]).1;
        assert(seq![a] + (replay(q, e1.drop_first()).1 + replay(replay(q, e1.drop_first()).0, e2).1)
            =~= (seq![a] + replay(q, e1.drop_first()).1) + replay(
            replay(q, e1.drop_first()).0,
            e2,
        ).1);
    }
}

proof fn lemma_waits_append(a1: Seq<ActionView>, a2: Seq<ActionView>)
    ensures
        waits(a1 + a2) == waits(a1) + waits(a2),
    decreases a1.len(),
{
    if a1.len() == 0 {
        assert(a1 + a2 =~= a2);
        assert(waits(a1) + waits(a2) =~= waits(a2));
    } else {
        lemma_waits_append(a1.drop_first(), a2);
        assert((a1 + a2)[0] == a1[0]);
        assert((a1 + a2).drop_first() =~= a1.drop_first() + a2);
        match a1[0] {
            ActionView::Sleep(d) => {
                assert(seq![d as int] + (waits(a1.drop_first()) + waits(a2)) =~= (seq![d as int]
                    + waits(a1.drop_first())) + waits(a2));
            },
            _ => {},
        }
    }
}

/// The step an attempt of the ladder begins at: the fetch when pulling onto
/// a published branch, the look for unpushed commits when only pushing to
/// one, the push itself when publishing a branch.
pub open spec fn first_step(pull: bool, set_upstream: bool) -> Step {
    if pull && !set_upstream {
        Step::Fetch
    } else if !set_upstream {
        Step::BeforePush
    } else {
        Step::Push
    }
}

/// The pass stands at the start of an attempt of the ladder.
pub open spec fn at_attempt_start(q: PassView) -> bool {
    &&& q.step == first_step(q.pull, q.set_upstream)
    &&& q.ladder_ok()
    &&& q.attempt <= q.attempts
}

/// The pass waits after a failed attempt that was not its last.
pub open spec fn waiting_after(q: PassView, r: PassView) -> bool {
    &&& r.step == Step::Sleep
    &&& r.attempt == q.attempt
    &&& r.attempts == q.attempts
    &&& r.delay == q.delay
    &&& r.base == q.base
    &&& r.max == q.max
    &&& r.pull == q.pull
    &&& r.set_upstream == q.set_upstream
    &&& r.remote == q.remote
    &&& r.branch == q.branch
}

proof fn lemma_one_failed_attempt(q: PassView, f: Failure)
    requires
        at_attempt_start(q),
        fails_plainly(f),
        suits(f, q.pull, q.set_upstream),
    ensures
        ({
            let (r, acts) = replay(q, attempt_events(f));
            &&& acts.len() > 0
            &&& forall|i: int| 0 <= i < acts.len() - 1 ==> !(#[trigger] acts[i] is Finish)
            &&& q.attempt < q.attempts ==> waiting_after(q, r) && acts.last() == ActionView::Sleep(
                q.delay,
            ) && waits(acts) == seq![q.delay as int]
            &&& q.attempt == q.attempts ==> r.step == Step::Done && acts.last() == (
            ActionView::Finish {
                outcome: OutcomeView::Unreachable,
                report: Some(failure_message(f)),
            }) && waits(acts) == Seq::<int>::empty()
        }),
{
    let empty = Seq::<Event>::empty();
    match f {
        Failure::Fetch { fetch, unpushed } => {
            let e0 = Event::Ran(Ok(fetch));
            let e1 = Event::Ran(Ok(unpushed));
            assert(attempt_events(f) =~= seq![e0] + (seq![e1] + empty));
            lemma_replay_first(q, e0, seq![e1] + empty);
            let q1 = q.advance(e0).0;
            lemma_replay_first(q1, e1, empty);
            let q2 = q1.advance(e1).0;
            let acts = seq![q.advance(e0).1] + (seq![q1.advance(e1).1] + Seq::<ActionView>::empty());
            assert(replay(q, attempt_events(f)).1 =~= acts);
            assert(acts.len() == 2);
            reveal_with_fuel(waits, 3);
            assert(acts.drop_first() =~= seq![q1.advance(e1).1]);
            assert(acts.drop_first().drop_first() =~= Seq::<ActionView>::empty());
        },
        Failure::Push { fetched, behind, unpushed, push } => {
            let e0 = Event::Ran(Ok(fetched));
            let e1 = Event::Ran(Ok(behind));
            let e2 = Event::Ran(Ok(unpushed));
            let e3 = Event::Ran(Ok(push));
            assert(attempt_events(f) =~= seq![e0] + (seq![e1] + (seq![e2] + (seq![e3] + empty))));
            lemma_replay_first(q, e0, seq![e1] + (seq![e2] + (seq![e3] + empty)));
            let q1 = q.advance(e0).0;
            lemma_replay_first(q1, e1, seq![e2] + (seq![e3] + empty));
            let q2 = q1.advance(e1).0;
            lemma_replay_first(q2, e2, seq![e3] + empty);
            let q3 = q2.advance(e2).0;
            lemma_replay_first(q3, e3, empty);
            let acts = seq![q.advance(e0).1] + (seq![q1.advance(e1).1] + (seq![q2.advance(e2).1] + (
            seq![q3.advance(e3).1] + Seq::<ActionView>::empty())));
            assert(replay(q, attempt_events(f)).1 =~= acts);
            assert(acts.len() == 4);
            reveal_with_fuel(waits, 5);
            assert(acts.drop_first() =~= seq![q1.advance(e1).1, q2.advance(e2).1, q3.advance(e3).1]);
            assert(acts.drop_first().drop_first() =~= seq![q2.advance(e2).1, q3.advance(e3).1]);
            assert(acts.drop_first().drop_first().drop_first() =~= seq![q3.advance(e3).1]);
            assert(acts.drop_first().drop_first().drop_first().drop_first()
                =~= Seq::<ActionView>::empty());
        },
        Failure::PushOnly { unpushed, push } => {
            let e0 = Event::Ran(Ok(unpushed));
            let e1 = Event::Ran(Ok(push));
            assert(attempt_events(f) =~= seq![e0] + (seq![e1] + empty));
            lemma_replay_first(q, e0, seq![e1] + empty);
            let q1 = q.advance(e0).0;
            lemma_replay_first(q1, e1, empty);
            let acts = seq![q.advance(e0).1] + (seq![q1.advance(e1).1] + Seq::<ActionView>::empty());
            assert(replay(q, attempt_events(f)).1 =~= acts);
            assert(acts.len() == 2);
            reveal_with_fuel(waits, 3);
            assert(acts.drop_first() =~= seq![q1.advance(e1).1]);
            assert(acts.drop_first().drop_first() =~= Seq::<ActionView>::empty());
        },
        Failure::Publish { push } => {
            let e0 = Event::Ran(Ok(push));
            assert(attempt_events(f) =~= seq![e0] + empty);
            lemma_replay_first(q, e0, empty);
            let acts = seq![q.advance(e0).1] + Seq::<ActionView>::empty();
            assert(replay(q, attempt_events(f)).1 =~= acts);
            assert(acts.len() == 1);
            reveal_with_fuel(waits, 2);
            assert(acts.drop_first() =~= Seq::<ActionView>::empty());
        },
    }
}

proof fn lemma_wait_over(q: PassView, r: PassView)
    requires
        at_attempt_start(q),
        waiting_after(q, r),
        q.attempt < q.attempts,
    ensures
        r.advance(Event::Slept).1 is Run,
        at_attempt_start(r.advance(Event::Slept).0),
        r.advance(Event::Slept).0.pull == q.pull,
        r.advance(Event::Slept).0.set_upstream == q.set_upstream,
        r.advance(Event::Slept).0.attempt == q.attempt + 1,
        r.advance(Event::Slept).0.attempts == q.attempts,
        r.advance(Event::Slept).0.base == q.base,
        r.advance(Event::Slept).0.max == q.max,
        r.advance(Event::Slept).0.remote == q.remote,
{
}

proof fn lemma_failed_ladder(q: PassView, fs: Seq<Failure>)
    requires
        at_attempt_start(q),
        fs.len() == q.attempts - q.attempt + 1,
        forall|i: int|
            0 <= i < fs.len() ==> fails_plainly(#[trigger] fs[i]) && suits(
                fs[i],
                q.pull,
                q.set_upstream,
            ),
    ensures
        ({
            let (r, acts) = replay(q, ladder_events(fs));
            &&& r.step == Step::Done
            &&& acts.len() > 0
            &&& acts.last() == (ActionView::Finish {
                outcome: OutcomeView::Unreachable,
                report: Some(failure_message(fs.last())),
            })
            &&& forall|i: int| 0 <= i < acts.len() - 1 ==> !(#[trigger] acts[i] is Finish)
            &&& waits(acts) =~= Seq::new(
                (q.attempts - q.attempt) as nat,
                |i: int| backoff(q.base as int, q.max as int, (q.attempt - 1 + i) as nat),
            )
        }),
    decreases fs.len(),
{
    assert(fails_plainly(fs[0]));
    lemma_one_failed_attempt(q, fs[0]);
    if fs.len() == 1 {
        assert(q.attempt == q.attempts);
    } else {
        let e1 = attempt_events(fs[0]);
        let rest = fs.drop_first();
        assert(ladder_events(fs) == e1 + seq![Event::Slept] + ladder_events(rest));
        lemma_replay_append(q, e1 + seq![Event::Slept], ladder_events(rest));
        lemma_replay_append(q, e1, seq![Event::Slept]);
        let (r1, acts1) = replay(q, e1);
        lemma_wait_over(q, r1);
        lemma_replay_first(r1, Event::Slept, Seq::<Event>::empty());
        assert(seq![Event::Slept] + Seq::<Event>::empty() =~= seq![Event::Slept]);
        let q2 = r1.advance(Event::Slept).0;
        let mid = seq![r1.advance(Event::Slept).1] + Seq::<ActionView>::empty();
        assert(replay(r1, seq![Event::Slept]).1 == mid);
        assert forall|i: int| 0 <= i < rest.len() implies fails_plainly(#[trigger] rest[i])
            && suits(rest[i], q2.pull, q2.set_upstream) by {
            assert(rest[i] == fs[i + 1]);
        }
        lemma_failed_ladder(q2, rest);
        let acts3 = replay(q2, ladder_events(rest)).1;
        let acts = acts1 + mid + acts3;
        assert(replay(q, ladder_events(fs)).1 == acts);
        assert(rest.last() == fs.last());
        lemma_waits_append(acts1 + mid, acts3);
        lemma_waits_append(acts1, mid);
        reveal_with_fuel(waits, 2);
        assert(mid.drop_first() =~= Seq::<ActionView>::empty());
        assert(waits(mid) =~= Seq::<int>::empty());
        assert(acts.last() == acts3.last());
        assert forall|i: int| 0 <= i < acts.len() - 1 implies !(#[trigger] acts[i] is Finish) by {
            if i < acts1.len() {
                assert(acts[i] == acts1[i]);
            } else if i == acts1.len() {
                assert(acts[i] == mid[0]);
            } else {
                assert(acts[i] == acts3[i - acts1.len() - 1]);
            }
        }
        assert(waits(acts) =~= seq![q.delay as int] + waits(acts3));
    }
}

/// An unreachable remote is retried `attempts` times and then given up on:
/// once a pass enters the retry ladder and every attempt fails without a
/// rejection (the fetch fails with work to send, or the push fails), the
/// pass waits exactly `attempts - 1` times, the `i`-th wait being
/// `base * 2^i` capped at `max`, never after the last attempt, and ends
/// unreachable, reporting what the last failed command said. This holds
/// whether the pass pulls or not and whether its branch is published yet;
/// each attempt starts with a fetch when pulling onto a published branch,
/// with the look for unpushed commits when only pushing to one, and with the
/// publishing push for a new branch.
pub proof fn law_an_unreachable_remote_backs_off_then_gives_up(p: PassView, fs: Seq<Failure>)
    requires
        p.attempts >= 1,
        fs.len() == p.attempts,
        forall|i: int|
            0 <= i < fs.len() ==> fails_plainly(#[trigger] fs[i]) && suits(
                fs[i],
                p.pull,
                p.set_upstream,
            ),
    ensures
        p.begin().1 == ActionView::Run(
            if p.pull && !p.set_upstream {
                CommandView::Fetch { remote: p.remote }
            } else if !p.set_upstream {
                CommandView::Unpushed
            } else {
                p.push_cmd()
            },
        ),
        ({
            let (end, acts) = replay(p.begin().0, ladder_events(fs));
            &&& end.step == Step::Done
            &&& acts.len() > 0
            &&& acts.last() == (ActionView::Finish {
                outcome: OutcomeView::Unreachable,
                report: Some(failure_message(fs.last())),
            })
            &&& forall|i: int| 0 <= i < acts.len() - 1 ==> !(#[trigger] acts[i] is Finish)
            &&& waits(acts) =~= Seq::new(
                (p.attempts - 1) as nat,
                |i: int| if p.base * pow2(i as nat) < p.max {
                    p.base * pow2(i as nat)
                } else {
                    p.max as int
                },
            )
        }),
{
    let q = p.begin().0;
    assert(q.ladder_ok());
    lemma_failed_ladder(q, fs);
    let acts = replay(q, ladder_events(fs)).1;
    assert forall|i: int| 0 <= i < p.attempts - 1 implies #[trigger] waits(acts)[i] == (if p.base
        * pow2(i as nat) < p.max {
        p.base * pow2(i as nat)
    } else {
        p.max as int
    }) by {
        law_backoff_doubles_up_to_max(p.base as int, p.max as int, i as nat);
    }
}


/// Commits still to send are always pushed: when the look for unpushed
/// commits before a push lists any, the pass pushes them to its remote and
/// branch, whatever was fetched or rebased in earlier in the attempt. A pass
/// ends there as `Pulled` or `Nothing` only when that list is empty.
pub proof fn law_unpushed_commits_are_pushed(p: PassView, e: Event)
    requires
        p.wf(),
        p.accepts(e),
        p.step == Step::BeforePush,
    ensures
        nonempty_lines(stdout_of(ran_of(e))).len() > 0 ==> p.advance(e).1 == ActionView::Run(
            CommandView::Push { remote: p.remote, branch: p.branch, set_upstream: p.set_upstream },
        ) && p.advance(e).0.step == Step::Push,
        p.advance(e).1 matches ActionView::Finish { outcome, .. } ==> nonempty_lines(
            stdout_of(ran_of(e)),
        ).len() == 0 && (outcome == OutcomeView::Pulled || outcome == OutcomeView::Nothing),
{
}

/// Each of the three marks of a push rejected for being behind counts on its
/// own, and output with none of them is no such rejection.
pub proof fn law_three_marks_of_a_rejection(lower: Seq<char>)
    ensures
        contains(lower, "[rejected]"@) ==> rejection_marked(lower),
        contains(lower, "fetch first"@) ==> rejection_marked(lower),
        contains(lower, "non-fast-forward"@) ==> rejection_marked(lower),
        !contains(lower, "[rejected]"@) && !contains(lower, "fetch first"@) && !contains(
            lower,
            "non-fast-forward"@,
        ) ==> !rejection_marked(lower),
{
}
} // verus!
