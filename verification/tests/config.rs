use boswell::config::{
    default_config_path, expand_tilde, path_join, Config, Github, Repo, Resolved, Retry, Span,
};

#[test]
fn defaults_fill_in_around_a_bare_repo_entry() {
    let repo = Repo::at("/tmp/x".to_string());
    let retry = Retry::default();
    let github = Github::default();
    assert_eq!(repo.remote, "origin");
    assert!(repo.pull);
    assert_eq!(repo.debounce, Span::from_secs(5));
    assert_eq!(repo.recheck, Span::from_secs(600));
    assert_eq!(repo.fetch_interval, Span::from_secs(60));
    assert_eq!(retry.attempts, 6);
    assert_eq!(retry.base, Span::from_secs(5));
    assert_eq!(retry.max, Span::from_secs(300));
    assert_eq!(github.api_url, "https://api.github.com");
}

#[test]
fn spans_count_nanoseconds() {
    assert_eq!(Span::from_millis(250).nanos, 250_000_000);
    assert_eq!(Span::from_secs(60).nanos, 60_000_000_000);
    assert!(Span::from_secs(0).is_zero());
}

#[test]
fn an_empty_config_is_rejected() {
    let mut config = Config {
        github: Github::default(),
        retry: Retry::default(),
        repos: Vec::new(),
    };
    assert_eq!(
        config.prepare(&Vec::new()),
        Err("no [[repo]] entries: boswell would watch nothing".to_string())
    );
}

#[test]
fn the_first_bad_repository_is_reported() {
    let mut config = Config {
        github: Github::default(),
        retry: Retry::default(),
        repos: vec![Repo::at("~/a".to_string()), Repo::at("/b".to_string())],
    };
    let resolved = vec![
        Resolved::Found {
            path: "/home/u/a".to_string(),
            work_tree: false,
        },
        Resolved::Missing {
            expanded: "/b".to_string(),
            error: "No such file or directory (os error 2)".to_string(),
        },
    ];
    assert_eq!(
        config.prepare(&resolved),
        Err("/home/u/a is not a git work tree".to_string())
    );
}

#[test]
fn good_repositories_take_their_resolved_paths() {
    let mut config = Config {
        github: Github::default(),
        retry: Retry::default(),
        repos: vec![Repo::at("~/a".to_string())],
    };
    let resolved = vec![Resolved::Found {
        path: "/home/u/a".to_string(),
        work_tree: true,
    }];
    assert_eq!(config.prepare(&resolved), Ok(()));
    assert_eq!(config.repos[0].path, "/home/u/a");
    assert_eq!(config.repos[0].remote, "origin");
}

#[test]
fn tilde_expands_only_at_the_front() {
    let home = Some("/home/u".to_string());
    assert_eq!(expand_tilde("~/docs", &home), path_join("/home/u", "docs"));
    assert_eq!(expand_tilde("~/docs", &home), "/home/u/docs");
    assert_eq!(expand_tilde("/a/~/b", &home), "/a/~/b");
    assert_eq!(expand_tilde("~", &home), "/home/u");
    assert_eq!(expand_tilde("~other/x", &home), "~other/x");
    assert_eq!(expand_tilde("~/docs", &None), "~/docs");
}

#[test]
fn the_config_path_prefers_xdg_then_home() {
    assert_eq!(
        default_config_path(&Some("/x".to_string()), &Some("/h".to_string())),
        "/x/boswell/config.toml"
    );
    assert_eq!(
        default_config_path(&Some(String::new()), &Some("/h".to_string())),
        "/h/.config/boswell/config.toml"
    );
    assert_eq!(
        default_config_path(&None, &None),
        ".config/boswell/config.toml"
    );
}
