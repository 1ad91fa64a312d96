use boswell::git::Git;
use boswell::git::Output;
use boswell::issue::{
    fenced, has_report, headers, hostname, issue_body, slug_from_remote_url, still_reported,
    token_from_cli, Answer, Ending, ReportPass, Reporter, Request, TokenSource, TITLE,
};

#[test]
fn https_with_git_suffix() {
    assert_eq!(
        slug_from_remote_url("https://github.com/o/r.git").as_deref(),
        Some("o/r")
    );
}

#[test]
fn ssh_with_git_suffix() {
    assert_eq!(
        slug_from_remote_url("git@github.com:o/r.git").as_deref(),
        Some("o/r")
    );
}

#[test]
fn https_without_git_suffix() {
    assert_eq!(
        slug_from_remote_url("https://github.com/o/r").as_deref(),
        Some("o/r")
    );
}

#[test]
fn ssh_url_form() {
    assert_eq!(
        slug_from_remote_url("ssh://git@github.com/o/r.git").as_deref(),
        Some("o/r")
    );
    assert_eq!(
        slug_from_remote_url("ssh://git@github.com/o/r").as_deref(),
        Some("o/r")
    );
}

#[test]
fn a_local_path_has_no_slug() {
    assert_eq!(slug_from_remote_url("/tmp/remote.git"), None);
}

#[test]
fn slugs_come_from_either_github_remote_spelling() {
    assert_eq!(
        slug_from_remote_url("https://github.com/o/r.git").as_deref(),
        Some("o/r")
    );
    assert_eq!(
        slug_from_remote_url("git@github.com:o/r.git").as_deref(),
        Some("o/r")
    );
    assert_eq!(
        slug_from_remote_url("https://github.com/o/r").as_deref(),
        Some("o/r")
    );
    assert_eq!(
        slug_from_remote_url("ssh://git@github.com/o/r.git").as_deref(),
        Some("o/r")
    );
}

#[test]
fn surrounding_white_space_and_slashes_are_dropped() {
    assert_eq!(
        slug_from_remote_url("  https://github.com//o/r/.git\n").as_deref(),
        Some("o/r")
    );
    assert_eq!(slug_from_remote_url("https://github.com/.git"), None);
    assert_eq!(slug_from_remote_url("https://gitlab.com/o/r.git"), None);
}

#[test]
fn the_api_root_loses_its_trailing_slashes() {
    let r = Reporter::new("http://127.0.0.1:9/api//", TokenSource::Environment);
    assert_eq!(r.api_url(), "http://127.0.0.1:9/api");
}

#[test]
fn a_fixed_token_wins_and_the_environment_is_read_in_order() {
    let fixed = TokenSource::Fixed("abc".to_string());
    assert_eq!(fixed.resolve(&None, &None).as_deref(), Some("abc"));
    let env = TokenSource::Environment;
    assert_eq!(
        env.resolve(&Some("  ".to_string()), &Some(" t2 \n".to_string()))
            .as_deref(),
        Some("t2")
    );
    assert_eq!(
        env.resolve(&Some(" t1".to_string()), &Some("t2".to_string()))
            .as_deref(),
        Some("t1")
    );
    assert_eq!(env.resolve(&None, &Some("".to_string())), None);
}

#[test]
fn the_cli_token_counts_only_when_it_succeeded_with_something() {
    assert_eq!(token_from_cli(true, "gho_x\n").as_deref(), Some("gho_x"));
    assert_eq!(token_from_cli(false, "gho_x\n"), None);
    assert_eq!(token_from_cli(true, " \n"), None);
}

#[test]
fn the_host_is_the_first_name_found() {
    assert_eq!(
        hostname(&vec![None, Some("box\n".to_string())]),
        "box".to_string()
    );
    assert_eq!(
        hostname(&vec![Some("\n".to_string()), Some(" b ".to_string())]),
        "b"
    );
    assert_eq!(hostname(&vec![None, None]), "an unknown host");
}

#[test]
fn a_fence_shows_at_most_its_limit() {
    let lines: Vec<String> = (0..5).map(|i| format!("l{i}")).collect();
    assert_eq!(fenced(&lines, 3), "```\nl0\nl1\nl2\n```");
    assert_eq!(fenced(&lines[..1].to_vec(), 3), "```\nl0\n```");
    assert_eq!(fenced(&Vec::new(), 3), "```\n(nothing)\n```");
}

#[test]
fn the_body_names_the_tree_the_remote_and_the_error() {
    let body = issue_body(
        "/home/x/docs",
        "origin",
        "box",
        "  error: failed to push\r\nhint: pull first\n",
        &vec!["abc Update a.md".to_string()],
        &Vec::new(),
    );
    let expected = "`/home/x/docs` could not be pushed to `origin` on box.

Nothing written there since is upstream, and nothing new will reach the origin until this is fixed by hand.

Fix the push, then **close this issue**: while it is open boswell suppresses the next report, so leaving it open hides the following failure.

## Last push or pull error

```
error: failed to push
hint: pull first
```

## Committed but not pushed

```
abc Update a.md
```

## Uncommitted

```
(nothing)
```
";
    assert_eq!(body, expected);
}

#[test]
fn an_open_report_is_recognised_by_its_title() {
    assert!(has_report(&vec!["x".to_string(), "Auto-sync failed".to_string()]));
    assert!(!has_report(&vec!["auto-sync failed".to_string()]));
    assert!(!has_report(&Vec::new()));
    assert_eq!(TITLE, "Auto-sync failed");
}

#[test]
fn not_knowing_counts_as_still_reported() {
    assert!(still_reported(&Ok(true)));
    assert!(!still_reported(&Ok(false)));
    assert!(still_reported(&Err("offline".to_string())));
}

#[test]
fn requests_carry_the_token_and_the_api_version() {
    let h = headers("tok");
    assert_eq!(h[0], ("Authorization".to_string(), "Bearer tok".to_string()));
    assert_eq!(h.len(), 4);
}

fn ok(stdout: &str) -> Answer {
    Answer::Ran(Ok(Output {
        success: true,
        stdout: stdout.to_string(),
        stderr: String::new(),
    }))
}

fn failed(stderr: &str) -> Answer {
    Answer::Ran(Ok(Output {
        success: false,
        stdout: String::new(),
        stderr: stderr.to_string(),
    }))
}

#[test]
fn a_report_is_filed_when_none_is_open() {
    let git = Git::new("/w".to_string());
    let reporter = Reporter::new("http://api/", TokenSource::Fixed("t".to_string()));
    let mut pass = ReportPass::report(&reporter, "origin", "fatal: unreachable");
    match pass.step(&git, Answer::Begin) {
        Request::Git(inv) => assert_eq!(
            inv.args,
            vec!["-C", "/w", "config", "--get", "remote.origin.url"]
        ),
        other => panic!("{other:?}"),
    }
    match pass.step(&git, ok("https://github.com/o/r.git\n")) {
        Request::Get { url, headers } => {
            assert_eq!(url, "http://api/repos/o/r/issues?state=open&per_page=100");
            assert_eq!(headers[0].1, "Bearer t");
        }
        other => panic!("{other:?}"),
    }
    assert_eq!(
        pass.step(&git, Answer::Listed(Ok(vec!["other".to_string()]))),
        Request::Host
    );
    assert!(matches!(
        pass.step(&git, Answer::Host("box".to_string())),
        Request::Git(_)
    ));
    assert!(matches!(pass.step(&git, ok("abc one\n")), Request::Git(_)));
    match pass.step(&git, ok("?? x.md\n")) {
        Request::Post {
            url, title, body, ..
        } => {
            assert_eq!(url, "http://api/repos/o/r/issues");
            assert_eq!(title, "Auto-sync failed");
            assert!(body.contains("`/w` could not be pushed to `origin` on box."));
            assert!(body.contains("fatal: unreachable"));
            assert!(body.contains("abc one"));
            assert!(body.contains("?? x.md"));
        }
        other => panic!("{other:?}"),
    }
    assert_eq!(
        pass.step(&git, Answer::Filed(Ok(()))),
        Request::Done(Ending::Filed("o/r".to_string()))
    );
}

#[test]
fn an_open_report_suppresses_the_next() {
    let git = Git::new("/w".to_string());
    let reporter = Reporter::new("http://api", TokenSource::Fixed("t".to_string()));
    let mut pass = ReportPass::report(&reporter, "origin", "e");
    pass.step(&git, Answer::Begin);
    pass.step(&git, ok("git@github.com:o/r.git"));
    assert_eq!(
        pass.step(
            &git,
            Answer::Listed(Ok(vec!["Auto-sync failed".to_string()]))
        ),
        Request::Done(Ending::AlreadyOpen("o/r".to_string()))
    );
}

#[test]
fn the_configured_url_falls_back_to_get_url() {
    let git = Git::new("/w".to_string());
    let reporter = Reporter::new("http://api", TokenSource::Environment);
    let mut pass = ReportPass::check(&reporter, "up");
    pass.step(&git, Answer::Begin);
    match pass.step(&git, failed("")) {
        Request::Git(inv) => assert_eq!(inv.args, vec!["-C", "/w", "remote", "get-url", "up"]),
        other => panic!("{other:?}"),
    }
    assert_eq!(
        pass.step(&git, ok("/srv/remote.git\n")),
        Request::Done(Ending::Failed(
            "remote up is not a GitHub repository: /srv/remote.git".to_string()
        ))
    );
}

#[test]
fn a_check_answers_whether_a_report_is_open() {
    let git = Git::new("/w".to_string());
    let reporter = Reporter::new("http://api", TokenSource::Environment);
    let mut pass = ReportPass::check(&reporter, "origin");
    pass.step(&git, Answer::Begin);
    assert_eq!(pass.step(&git, ok("https://github.com/o/r")), Request::EnvToken);
    assert_eq!(
        pass.step(
            &git,
            Answer::Env {
                gh_token: None,
                github_token: Some(" ".to_string())
            }
        ),
        Request::CliToken
    );
    assert_eq!(
        pass.step(&git, Answer::Cli(None)),
        Request::Done(Ending::Failed(
            "no GitHub token in GH_TOKEN, GITHUB_TOKEN or `gh auth token`".to_string()
        ))
    );
    let mut pass = ReportPass::check(&reporter, "origin");
    pass.step(&git, Answer::Begin);
    pass.step(&git, ok("https://github.com/o/r"));
    assert!(matches!(
        pass.step(
            &git,
            Answer::Env {
                gh_token: Some("t".to_string()),
                github_token: None
            }
        ),
        Request::Get { .. }
    ));
    assert_eq!(
        pass.step(
            &git,
            Answer::Listed(Ok(vec!["Auto-sync failed".to_string()]))
        ),
        Request::Done(Ending::Open(true))
    );
}

fn bearer(request: Request) -> String {
    match request {
        Request::Get { headers, .. } => headers[0].1.clone(),
        other => panic!("{other:?}"),
    }
}

#[test]
fn the_environment_is_asked_before_the_cli() {
    let git = Git::new("/w".to_string());
    let reporter = Reporter::new("http://api", TokenSource::Environment);
    let mut pass = ReportPass::report(&reporter, "origin", "e");
    pass.step(&git, Answer::Begin);
    assert_eq!(pass.step(&git, ok("https://github.com/o/r")), Request::EnvToken);
    let env = Answer::Env {
        gh_token: Some(" \n".to_string()),
        github_token: Some(" t2 ".to_string()),
    };
    assert_eq!(bearer(pass.step(&git, env)), "Bearer t2");

    let mut pass = ReportPass::report(&reporter, "origin", "e");
    pass.step(&git, Answer::Begin);
    pass.step(&git, ok("https://github.com/o/r"));
    let env = Answer::Env {
        gh_token: None,
        github_token: None,
    };
    assert_eq!(pass.step(&git, env), Request::CliToken);
    let cli = Answer::Cli(Some((true, "gho_x\n".to_string())));
    assert_eq!(bearer(pass.step(&git, cli)), "Bearer gho_x");

    let mut pass = ReportPass::report(&reporter, "origin", "e");
    pass.step(&git, Answer::Begin);
    pass.step(&git, ok("https://github.com/o/r"));
    pass.step(
        &git,
        Answer::Env {
            gh_token: None,
            github_token: None,
        },
    );
    assert_eq!(
        pass.step(&git, Answer::Cli(Some((false, "gho_x".to_string())))),
        Request::Done(Ending::Failed(
            "no GitHub token in GH_TOKEN, GITHUB_TOKEN or `gh auth token`".to_string()
        ))
    );
}

#[test]
fn a_fixed_token_never_reads_the_environment() {
    let git = Git::new("/w".to_string());
    let reporter = Reporter::new("http://api", TokenSource::Fixed("f".to_string()));
    let mut pass = ReportPass::check(&reporter, "origin");
    pass.step(&git, Answer::Begin);
    assert_eq!(
        bearer(pass.step(&git, ok("ssh://git@github.com/o/r.git"))),
        "Bearer f"
    );
}

#[test]
fn a_slug_round_trips_through_every_spelling() {
    for prefix in ["https://github.com/", "ssh://git@github.com/", "git@github.com:"] {
        for suffix in ["", ".git"] {
            let url = format!(" \t{prefix}owner/name{suffix}\n");
            assert_eq!(
                slug_from_remote_url(&url).as_deref(),
                Some("owner/name"),
                "{url}"
            );
        }
    }
    assert_eq!(slug_from_remote_url("https://gitlab.com/o/r"), None);
    assert_eq!(slug_from_remote_url("https://github.com//"), None);
}
