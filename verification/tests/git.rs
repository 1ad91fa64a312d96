use boswell::git::{Git, Invocation, Output};

fn ran(success: bool, stdout: &str, stderr: &str) -> Result<Output, String> {
    Ok(Output {
        success,
        stdout: stdout.to_string(),
        stderr: stderr.to_string(),
    })
}

fn args(inv: &Invocation) -> Vec<&str> {
    inv.args.iter().map(|s| s.as_str()).collect()
}

#[test]
fn a_message_puts_stderr_above_stdout_and_trims() {
    let out = Output {
        success: false,
        stdout: "out line\n\n".to_string(),
        stderr: "  err line \n".to_string(),
    };
    assert_eq!(out.message(), "err line\nout line");
    let quiet = Output {
        success: false,
        stdout: String::new(),
        stderr: "only err\n".to_string(),
    };
    assert_eq!(quiet.message(), "only err");
}

#[test]
fn commands_run_in_the_work_tree_without_prompts() {
    let git = Git::new("/w".to_string()).with_env("GIT_CONFIG_GLOBAL".to_string(), "/none".to_string());
    assert_eq!(git.dir(), "/w");
    let inv = git.branch();
    assert_eq!(args(&inv), vec!["-C", "/w", "rev-parse", "--abbrev-ref", "HEAD"]);
    assert_eq!(
        inv.env,
        vec![
            ("GIT_TERMINAL_PROMPT".to_string(), "0".to_string()),
            ("GIT_CONFIG_GLOBAL".to_string(), "/none".to_string())
        ]
    );
    assert_eq!(
        args(&git.run(&["status", "--porcelain"])),
        vec!["-C", "/w", "status", "--porcelain"]
    );
}

#[test]
fn each_query_has_its_arguments() {
    let git = Git::new("/w".to_string());
    assert_eq!(
        args(&git.has_upstream())[2..],
        ["rev-parse", "--abbrev-ref", "--symbolic-full-name", "@{upstream}"]
    );
    assert_eq!(args(&git.status_porcelain())[2..], ["status", "--porcelain"]);
    assert_eq!(args(&git.unpushed())[2..], ["log", "--oneline", "@{upstream}..HEAD"]);
    assert_eq!(args(&git.behind())[2..], ["log", "--oneline", "HEAD..@{upstream}"]);
    assert_eq!(args(&git.staged_files())[2..], ["diff", "--cached", "--name-only"]);
    assert_eq!(args(&git.add_all())[2..], ["add", "-A"]);
    assert_eq!(args(&git.commit("Update a.md"))[2..], ["commit", "-m", "Update a.md"]);
    assert_eq!(
        args(&git.push("origin", "main", true))[2..],
        ["push", "--set-upstream", "origin", "main"]
    );
    assert_eq!(args(&git.push("origin", "main", false))[2..], ["push", "origin", "main"]);
    assert_eq!(args(&git.fetch("origin"))[2..], ["fetch", "origin"]);
    assert_eq!(
        args(&git.pull_rebase("origin", "main"))[2..],
        ["pull", "--rebase", "--autostash", "origin", "main"]
    );
    assert_eq!(args(&git.rebase_abort())[2..], ["rebase", "--abort"]);
    assert_eq!(
        args(&git.remote_url("origin"))[2..],
        ["config", "--get", "remote.origin.url"]
    );
    assert_eq!(args(&git.remote_get_url("origin"))[2..], ["remote", "get-url", "origin"]);
    assert_eq!(
        args(&git.is_work_tree())[2..],
        ["rev-parse", "--is-inside-work-tree"]
    );
}

#[test]
fn lines_skip_blanks_and_carriage_returns_and_need_success() {
    assert_eq!(
        Git::read_lines(&ran(true, "a\r\n\nb\n", "")),
        vec!["a".to_string(), "b".to_string()]
    );
    assert!(Git::read_lines(&ran(false, "a\n", "")).is_empty());
    assert!(Git::read_lines(&Err("gone".to_string())).is_empty());
}

#[test]
fn answers_are_read_from_their_output() {
    assert!(Git::read_work_tree(&ran(true, "true\n", "")));
    assert!(!Git::read_work_tree(&ran(true, "false\n", "")));
    assert!(!Git::read_work_tree(&ran(false, "true\n", "")));
    assert!(Git::read_upstream(&ran(true, "", "")));
    assert!(!Git::read_upstream(&ran(false, "", "")));
    assert_eq!(Git::read_branch(&ran(true, " main\n", "")), Ok("main".to_string()));
    assert_eq!(
        Git::read_branch(&ran(false, "", "fatal: not a git repository\n")),
        Err("fatal: not a git repository".to_string())
    );
    assert_eq!(
        Git::read_configured_url(&ran(true, "https://github.com/o/r\n", "")),
        Some("https://github.com/o/r".to_string())
    );
    assert_eq!(Git::read_configured_url(&ran(true, " \n", "")), None);
    assert_eq!(Git::read_stdout(&ran(true, "x\n", "")), "x\n");
}
