use boswell::config::{Repo, Retry, Span};
use boswell::git::Output;
use boswell::sync::{is_rejection, is_rejection_lowered, Action, Command, Event, Outcome, SyncPass};

fn repo(pull: bool) -> Repo {
    let mut r = Repo::at("/w".to_string());
    r.pull = pull;
    r
}

fn retry(attempts: u32, base_ms: u64, max_ms: u64) -> Retry {
    Retry {
        attempts,
        base: Span::from_millis(base_ms),
        max: Span::from_millis(max_ms),
    }
}

fn ok(stdout: &str) -> Event {
    Event::Ran(Ok(Output {
        success: true,
        stdout: stdout.to_string(),
        stderr: String::new(),
    }))
}

fn failed(stderr: &str) -> Event {
    Event::Ran(Ok(Output {
        success: false,
        stdout: String::new(),
        stderr: stderr.to_string(),
    }))
}

fn push(set_upstream: bool) -> Action {
    Action::Run(Command::Push {
        remote: "origin".to_string(),
        branch: "main".to_string(),
        set_upstream,
    })
}

fn fetch() -> Action {
    Action::Run(Command::Fetch {
        remote: "origin".to_string(),
    })
}

fn pull_rebase() -> Action {
    Action::Run(Command::PullRebase {
        remote: "origin".to_string(),
        branch: "main".to_string(),
    })
}

/// Starts a pass on branch `main` with an upstream, a tree whose status is
/// `status`, and `unpushed` commits; returns the action after the upstream
/// and status queries.
fn opened(pass: &mut SyncPass, status: &str, unpushed: &str) -> Action {
    assert_eq!(pass.step(Event::Start), Action::Run(Command::Branch));
    assert_eq!(pass.step(ok("main\n")), Action::Run(Command::HasUpstream));
    assert_eq!(pass.step(ok("origin/main\n")), Action::Run(Command::StatusPorcelain));
    assert_eq!(pass.step(ok(status)), Action::Run(Command::Unpushed));
    pass.step(ok(unpushed))
}

#[test]
fn a_dirty_tree_is_committed_under_its_subject_and_pushed() {
    let mut pass = SyncPass::new(&repo(true), &retry(3, 1, 1));
    assert_eq!(
        opened(&mut pass, " M a.md\n?? b.md\n", ""),
        Action::Run(Command::AddAll)
    );
    assert_eq!(pass.step(ok("")), Action::Run(Command::StagedFiles));
    assert_eq!(
        pass.step(ok("a.md\nb.md\n")),
        Action::Run(Command::Commit("Update a.md, b.md".to_string()))
    );
    assert_eq!(pass.step(ok("")), fetch());
    assert_eq!(pass.step(ok("")), Action::Run(Command::Behind));
    assert_eq!(pass.step(ok("")), Action::Run(Command::Unpushed));
    assert_eq!(pass.step(ok("abc Update a.md, b.md\n")), push(false));
    assert_eq!(
        pass.step(ok("")),
        Action::Finish {
            outcome: Outcome::Pushed {
                subject: Some("Update a.md, b.md".to_string())
            },
            report: None
        }
    );
    assert!(pass.is_done());
}

#[test]
fn a_clean_pass_with_nothing_anywhere_does_nothing() {
    let mut pass = SyncPass::new(&repo(true), &retry(3, 1, 1));
    assert_eq!(opened(&mut pass, "", ""), Action::Run(Command::AddAll));
    assert_eq!(pass.step(ok("")), Action::Run(Command::StagedFiles));
    assert_eq!(pass.step(ok("")), fetch());
    assert_eq!(pass.step(ok("")), Action::Run(Command::Behind));
    assert_eq!(pass.step(ok("")), Action::Run(Command::Unpushed));
    assert_eq!(
        pass.step(ok("")),
        Action::Finish {
            outcome: Outcome::Nothing,
            report: None
        }
    );
}

#[test]
fn without_pull_a_clean_tree_is_left_alone() {
    let mut pass = SyncPass::new(&repo(false), &retry(3, 1, 1));
    assert_eq!(
        opened(&mut pass, "", ""),
        Action::Finish {
            outcome: Outcome::Nothing,
            report: None
        }
    );
}

#[test]
fn an_unpublished_branch_is_pushed_with_an_upstream() {
    let mut pass = SyncPass::new(&repo(true), &retry(3, 1, 1));
    assert_eq!(pass.step(Event::Start), Action::Run(Command::Branch));
    assert_eq!(pass.step(ok("main\n")), Action::Run(Command::HasUpstream));
    assert_eq!(
        pass.step(failed("fatal: no upstream")),
        Action::Run(Command::StatusPorcelain)
    );
    assert_eq!(pass.step(ok("")), Action::Run(Command::AddAll));
    assert_eq!(pass.step(ok("")), Action::Run(Command::StagedFiles));
    assert_eq!(pass.step(ok("")), push(true));
    assert_eq!(
        pass.step(ok("")),
        Action::Finish {
            outcome: Outcome::Pushed { subject: None },
            report: None
        }
    );
}

#[test]
fn an_unreachable_remote_backs_off_doubling_up_to_the_cap() {
    let mut pass = SyncPass::new(&repo(true), &retry(4, 1000, 3000));
    assert_eq!(opened(&mut pass, "", "abc mine\n"), Action::Run(Command::AddAll));
    assert_eq!(pass.step(ok("")), Action::Run(Command::StagedFiles));
    assert_eq!(pass.step(ok("")), fetch());
    let mut delays = Vec::new();
    let last = loop {
        assert_eq!(pass.step(failed("fatal: cannot reach")), Action::Run(Command::Unpushed));
        match pass.step(ok("abc mine\n")) {
            Action::Sleep(d) => {
                delays.push(d);
                assert!(pass.can_double());
                assert_eq!(pass.step(Event::Slept), fetch());
            }
            other => break other,
        }
    };
    assert_eq!(
        delays,
        vec![
            Span::from_secs(1),
            Span::from_secs(2),
            Span::from_secs(3)
        ]
    );
    assert_eq!(
        last,
        Action::Finish {
            outcome: Outcome::Unreachable,
            report: Some("fatal: cannot reach".to_string())
        }
    );
}

#[test]
fn a_base_above_the_cap_waits_only_the_cap() {
    let mut pass = SyncPass::new(&repo(true), &retry(3, 5000, 2000));
    assert_eq!(opened(&mut pass, "", "abc mine\n"), Action::Run(Command::AddAll));
    assert_eq!(pass.step(ok("")), Action::Run(Command::StagedFiles));
    assert_eq!(pass.step(ok("")), fetch());
    let mut delays = Vec::new();
    let last = loop {
        assert_eq!(pass.step(failed("fatal: cannot reach")), Action::Run(Command::Unpushed));
        match pass.step(ok("abc mine\n")) {
            Action::Sleep(d) => {
                delays.push(d);
                assert!(pass.can_double());
                assert_eq!(pass.step(Event::Slept), fetch());
            }
            other => break other,
        }
    };
    assert_eq!(delays, vec![Span::from_secs(2), Span::from_secs(2)]);
    assert_eq!(
        last,
        Action::Finish {
            outcome: Outcome::Unreachable,
            report: Some("fatal: cannot reach".to_string())
        }
    );
}

#[test]
fn an_offline_machine_with_nothing_to_send_is_not_failing() {
    let mut pass = SyncPass::new(&repo(true), &retry(3, 1, 1));
    assert_eq!(opened(&mut pass, "", ""), Action::Run(Command::AddAll));
    assert_eq!(pass.step(ok("")), Action::Run(Command::StagedFiles));
    assert_eq!(pass.step(ok("")), fetch());
    assert_eq!(pass.step(failed("fatal: offline")), Action::Run(Command::Unpushed));
    assert_eq!(
        pass.step(ok("")),
        Action::Finish {
            outcome: Outcome::Nothing,
            report: None
        }
    );
}

#[test]
fn a_rejected_push_without_pull_needs_a_human() {
    let mut pass = SyncPass::new(&repo(false), &retry(3, 1, 1));
    assert_eq!(
        opened(&mut pass, "?? mine.md\n", ""),
        Action::Run(Command::AddAll)
    );
    assert_eq!(pass.step(ok("")), Action::Run(Command::StagedFiles));
    assert_eq!(
        pass.step(ok("mine.md\n")),
        Action::Run(Command::Commit("Update mine.md".to_string()))
    );
    assert_eq!(pass.step(ok("")), Action::Run(Command::Unpushed));
    assert_eq!(pass.step(ok("abc Update mine.md\n")), push(false));
    let rejection = " ! [rejected]        main -> main (fetch first)";
    assert_eq!(
        pass.step(failed(rejection)),
        Action::Finish {
            outcome: Outcome::NeedsHuman,
            report: Some("! [rejected]        main -> main (fetch first)".to_string())
        }
    );
}

#[test]
fn a_rejected_push_is_rebased_and_pushed_on_the_last_attempt() {
    let mut pass = SyncPass::new(&repo(true), &retry(1, 1, 1));
    assert_eq!(
        opened(&mut pass, "?? mine.md\n", ""),
        Action::Run(Command::AddAll)
    );
    assert_eq!(pass.step(ok("")), Action::Run(Command::StagedFiles));
    assert_eq!(
        pass.step(ok("mine.md\n")),
        Action::Run(Command::Commit("Update mine.md".to_string()))
    );
    assert_eq!(pass.step(ok("")), fetch());
    assert_eq!(pass.step(ok("")), Action::Run(Command::Behind));
    assert_eq!(pass.step(ok("")), Action::Run(Command::Unpushed));
    assert_eq!(pass.step(ok("abc Update mine.md\n")), push(false));
    assert_eq!(pass.step(failed("! [rejected] main -> main (non-fast-forward)")), pull_rebase());
    assert_eq!(pass.step(ok("")), push(false));
    assert_eq!(
        pass.step(ok("")),
        Action::Finish {
            outcome: Outcome::Pushed {
                subject: Some("Update mine.md".to_string())
            },
            report: None
        }
    );
}

#[test]
fn a_rebase_conflict_is_aborted_and_reported() {
    let mut pass = SyncPass::new(&repo(true), &retry(3, 1, 1));
    assert_eq!(
        opened(&mut pass, " M README.md\n", ""),
        Action::Run(Command::AddAll)
    );
    assert_eq!(pass.step(ok("")), Action::Run(Command::StagedFiles));
    assert_eq!(
        pass.step(ok("README.md\n")),
        Action::Run(Command::Commit("Update README.md".to_string()))
    );
    assert_eq!(pass.step(ok("")), fetch());
    assert_eq!(pass.step(ok("abc their edit\n")), Action::Run(Command::Behind));
    assert_eq!(pass.step(ok("abc their edit\n")), pull_rebase());
    assert_eq!(
        pass.step(failed("CONFLICT (content): Merge conflict in README.md")),
        Action::Run(Command::RebaseAbort)
    );
    assert_eq!(
        pass.step(Event::Ran(Err("abort failed".to_string()))),
        Action::Finish {
            outcome: Outcome::NeedsHuman,
            report: Some("CONFLICT (content): Merge conflict in README.md".to_string())
        }
    );
}

#[test]
fn commits_pulled_with_nothing_to_push_end_as_pulled() {
    let mut pass = SyncPass::new(&repo(true), &retry(3, 1, 1));
    assert_eq!(opened(&mut pass, "", ""), Action::Run(Command::AddAll));
    assert_eq!(pass.step(ok("")), Action::Run(Command::StagedFiles));
    assert_eq!(pass.step(ok("")), fetch());
    assert_eq!(pass.step(ok("")), Action::Run(Command::Behind));
    assert_eq!(pass.step(ok("a one\nb two\n")), pull_rebase());
    assert_eq!(pass.step(ok("")), Action::Run(Command::Unpushed));
    assert_eq!(
        pass.step(ok("")),
        Action::Finish {
            outcome: Outcome::Pulled,
            report: None
        }
    );
    assert_eq!(pass.pulled(), 2);
}

#[test]
fn a_failed_commit_ends_the_pass_unreachable_and_reported() {
    let mut pass = SyncPass::new(&repo(true), &retry(3, 1, 1));
    assert_eq!(opened(&mut pass, "?? a.md\n", ""), Action::Run(Command::AddAll));
    assert_eq!(pass.step(ok("")), Action::Run(Command::StagedFiles));
    assert_eq!(
        pass.step(ok("a.md\n")),
        Action::Run(Command::Commit("Update a.md".to_string()))
    );
    assert_eq!(
        pass.step(failed("Author identity unknown\n")),
        Action::Finish {
            outcome: Outcome::Unreachable,
            report: Some("commit failed: Author identity unknown".to_string())
        }
    );
}

#[test]
fn a_branch_that_cannot_be_read_fails_the_pass() {
    let mut pass = SyncPass::new(&repo(true), &retry(3, 1, 1));
    assert_eq!(pass.step(Event::Start), Action::Run(Command::Branch));
    assert_eq!(
        pass.step(Event::Ran(Err("No such file or directory (os error 2)".to_string()))),
        Action::Finish {
            outcome: Outcome::Unreachable,
            report: Some("No such file or directory (os error 2)".to_string())
        }
    );
}

#[test]
fn rejections_are_read_case_blind_and_not_from_hooks() {
    assert!(is_rejection("! [REJECTED] main -> main"));
    assert!(is_rejection("Updates were rejected: Fetch First"));
    assert!(is_rejection("error: non-fast-forward"));
    assert!(!is_rejection("! [remote rejected] main -> main (pre-receive hook declined)"));
}

#[test]
fn only_needing_a_human_or_being_unreachable_is_a_failure() {
    assert!(Outcome::NeedsHuman.is_failure());
    assert!(Outcome::Unreachable.is_failure());
    assert!(!Outcome::Nothing.is_failure());
    assert!(!Outcome::Pulled.is_failure());
    assert!(!Outcome::Pushed { subject: None }.is_failure());
}

#[test]
fn failed_pushes_are_retried_then_reported_with_the_last_error() {
    let mut pass = SyncPass::new(&repo(true), &retry(2, 1000, 3000));
    assert_eq!(opened(&mut pass, "", "abc mine\n"), Action::Run(Command::AddAll));
    assert_eq!(pass.step(ok("")), Action::Run(Command::StagedFiles));
    assert_eq!(pass.step(ok("")), fetch());
    assert_eq!(pass.step(ok("")), Action::Run(Command::Behind));
    assert_eq!(pass.step(ok("")), Action::Run(Command::Unpushed));
    assert_eq!(pass.step(ok("abc mine\n")), push(false));
    assert_eq!(
        pass.step(failed("fatal: first")),
        Action::Sleep(Span::from_secs(1))
    );
    assert_eq!(pass.step(Event::Slept), fetch());
    assert_eq!(pass.step(ok("")), Action::Run(Command::Behind));
    assert_eq!(pass.step(ok("")), Action::Run(Command::Unpushed));
    assert_eq!(pass.step(ok("abc mine\n")), push(false));
    assert_eq!(
        pass.step(failed("fatal: second")),
        Action::Finish {
            outcome: Outcome::Unreachable,
            report: Some("fatal: second".to_string())
        }
    );
}

#[test]
fn without_pull_an_unreachable_remote_backs_off_then_gives_up() {
    let mut pass = SyncPass::new(&repo(false), &retry(3, 1000, 3000));
    assert_eq!(opened(&mut pass, "", "abc mine\n"), Action::Run(Command::AddAll));
    assert_eq!(pass.step(ok("")), Action::Run(Command::StagedFiles));
    assert_eq!(pass.step(ok("")), Action::Run(Command::Unpushed));
    let mut delays = Vec::new();
    let last = loop {
        assert_eq!(pass.step(ok("abc mine\n")), push(false));
        match pass.step(failed("fatal: cannot reach")) {
            Action::Sleep(d) => {
                delays.push(d);
                assert_eq!(pass.step(Event::Slept), Action::Run(Command::Unpushed));
            }
            other => break other,
        }
    };
    assert_eq!(delays, vec![Span::from_secs(1), Span::from_secs(2)]);
    assert_eq!(
        last,
        Action::Finish {
            outcome: Outcome::Unreachable,
            report: Some("fatal: cannot reach".to_string())
        }
    );
}

#[test]
fn a_new_branch_that_cannot_be_published_backs_off_then_gives_up() {
    let mut pass = SyncPass::new(&repo(true), &retry(3, 2000, 3000));
    assert_eq!(pass.step(Event::Start), Action::Run(Command::Branch));
    assert_eq!(pass.step(ok("main\n")), Action::Run(Command::HasUpstream));
    assert_eq!(
        pass.step(failed("fatal: no upstream")),
        Action::Run(Command::StatusPorcelain)
    );
    assert_eq!(pass.step(ok("")), Action::Run(Command::AddAll));
    assert_eq!(pass.step(ok("")), Action::Run(Command::StagedFiles));
    assert_eq!(pass.step(ok("")), push(true));
    let mut delays = Vec::new();
    let last = loop {
        match pass.step(failed("fatal: cannot reach")) {
            Action::Sleep(d) => {
                delays.push(d);
                assert_eq!(pass.step(Event::Slept), push(true));
            }
            other => break other,
        }
    };
    assert_eq!(delays, vec![Span::from_secs(2), Span::from_secs(3)]);
    assert_eq!(
        last,
        Action::Finish {
            outcome: Outcome::Unreachable,
            report: Some("fatal: cannot reach".to_string())
        }
    );
}

#[test]
fn lowered_output_is_searched_for_the_three_markers() {
    assert!(is_rejection_lowered(" ! [rejected]        main -> main (fetch first)"));
    assert!(is_rejection_lowered("hint: updates were rejected (non-fast-forward)"));
    assert!(is_rejection_lowered("fetch first"));
    assert!(!is_rejection_lowered(" ! [remote rejected] main -> main (pre-receive hook declined)"));
    assert!(!is_rejection_lowered(" ! [REJECTED] main -> main"));
}
