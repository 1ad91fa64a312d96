//! What the daemon is configured with, and the defaults that fill it in.
use vstd::prelude::*;

use crate::text::{after_prefix, owned, same, strip_prefix};

verus! {

/// The longest `std::time::Duration`, in nanoseconds.
pub const DURATION_MAX_NANOS: u128 = 18446744073709551615999999999;

/// A span of time, in nanoseconds.
#[derive(Clone, Copy, Debug, PartialEq, Eq, Structural)]
pub struct Span {
    pub nanos: u128,
}

impl Span {
    /// `secs` seconds.
    pub fn from_secs(secs: u64) -> (s: Span)
        ensures
            s.nanos == secs * 1_000_000_000,
    {
        Span { nanos: secs as u128 * 1_000_000_000 }
    }

    /// `millis` milliseconds.
    pub fn from_millis(millis: u64) -> (s: Span)
        ensures
            s.nanos == millis * 1_000_000,
    {
        Span { nanos: millis as u128 * 1_000_000 }
    }

    /// Whether the span is empty.
    pub fn is_zero(&self) -> (z: bool)
        ensures
            z == (self.nanos == 0),
    {
        self.nanos == 0
    }
}

/// The `[github]` table: where issues are filed.
#[derive(Debug)]
pub struct Github {
    pub api_url: String,
}

/// The `[retry]` table: how often and how patiently a push is retried.
#[derive(Debug, Clone, Copy, PartialEq, Eq)]
pub struct Retry {
    pub attempts: u32,
    pub base: Span,
    pub max: Span,
}

/// One `[[repo]]` entry.
#[derive(Debug, Clone, PartialEq, Eq)]
pub struct Repo {
    pub path: String,
    pub debounce: Span,
    pub remote: String,
    pub pull: bool,
    pub recheck: Span,
    pub fetch_interval: Span,
}

/// The whole configuration.
#[derive(Debug)]
pub struct Config {
    pub github: Github,
    pub retry: Retry,
    pub repos: Vec<Repo>,
}

/// `https://api.github.com`.
pub fn default_api_url() -> (s: String)
    ensures
        s@ == "https://api.github.com"@,
{
    owned("https://api.github.com")
}

/// Six push attempts before an issue is filed.
pub fn default_attempts() -> (n: u32)
    ensures
        n == 6,
{
    6
}

/// Five seconds before the first retry.
pub fn default_base() -> (s: Span)
    ensures
        s.nanos == 5_000_000_000,
{
    Span::from_secs(5)
}

/// Five minutes at most between retries.
pub fn default_max() -> (s: Span)
    ensures
        s.nanos == 300_000_000_000,
{
    Span::from_secs(300)
}

/// Five seconds of quiet before a sync: the docs repository tolerates early
/// publication, so the window only has to outlast one burst of writes.
pub fn default_debounce() -> (s: Span)
    ensures
        s.nanos == 5_000_000_000,
{
    Span::from_secs(5)
}

/// `origin`.
pub fn default_remote() -> (s: String)
    ensures
        s@ == "origin"@,
{
    owned("origin")
}

/// Pulling is on.
pub fn default_pull() -> (b: bool)
    ensures
        b,
{
    true
}

/// Ten minutes between rechecks while commits remain unpushed.
pub fn default_recheck() -> (s: Span)
    ensures
        s.nanos == 600_000_000_000,
{
    Span::from_secs(600)
}

/// One minute between fetches of the remote.
pub fn default_fetch_interval() -> (s: Span)
    ensures
        s.nanos == 60_000_000_000,
{
    Span::from_secs(60)
}

impl Default for Github {
    fn default() -> (g: Github)
        ensures
            g.api_url@ == "https://api.github.com"@,
    {
        Github { api_url: default_api_url() }
    }
}

impl Default for Retry {
    fn default() -> (r: Retry)
        ensures
            r.attempts == 6,
            r.base.nanos == 5_000_000_000,
            r.max.nanos == 300_000_000_000,
    {
        Retry { attempts: default_attempts(), base: default_base(), max: default_max() }
    }
}

impl Repo {
    /// A repository at `path` with every other setting at its default.
    pub fn at(path: String) -> (r: Repo)
        ensures
            r.path@ == path@,
            r.debounce.nanos == 5_000_000_000,
            r.remote@ == "origin"@,
            r.pull,
            r.recheck.nanos == 600_000_000_000,
            r.fetch_interval.nanos == 60_000_000_000,
    {
        Repo {
            path,
            debounce: default_debounce(),
            remote: default_remote(),
            pull: default_pull(),
            recheck: default_recheck(),
            fetch_interval: default_fetch_interval(),
        }
    }
}


// ------------------------------------------------------------------------
// Paths
// ------------------------------------------------------------------------

/// What `std::path::Path::join` gives for `base` and `rest`.
pub uninterp spec fn joined(base: Seq<char>, rest: Seq<char>) -> Seq<char>;

/// Calls `std::path::Path::join`. Its rules (a separator between the parts,
/// an absolute `rest` replacing `base`) are the platform's and are not stated;
/// the result is named by `joined`.
#[verifier::external_body]
pub fn path_join(base: &str, rest: &str) -> (p: String)
    ensures
        p@ == joined(base@, rest@),
{
    std::path::Path::new(base).join(rest).to_string_lossy().into_owned()
}

/// `path` with a leading `~` standing for the home directory `home`: `~`
/// alone, or `~/` at the very front. A `~` anywhere else stays as it is, and
/// without a home directory nothing is expanded.
pub open spec fn expanded(path: Seq<char>, home: Option<Seq<char>>) -> Seq<char> {
    match home {
        None => path,
        Some(h) => if path == "~"@ {
            h
        } else {
            match after_prefix(path, "~/"@) {
                Some(rest) => joined(h, rest),
                None => path,
            }
        },
    }
}

/// `path` with a leading `~` expanded to `home`, the value of `HOME`.
pub fn expand_tilde(path: &str, home: &Option<String>) -> (p: String)
    ensures
        p@ == expanded(path@, home.deep_view()),
{
    match home {
        None => owned(path),
        Some(h) => {
            if same(path, "~") {
                return owned(h.as_str());
            }
            match strip_prefix(path, "~/") {
                Some(rest) => path_join(h.as_str(), rest.as_str()),
                None => owned(path),
            }
        },
    }
}

/// Where the configuration lives: `$XDG_CONFIG_HOME/boswell/config.toml`
/// when that variable is set and not empty, else `$HOME/.config/...`, else
/// `.config/...` relative to where the daemon runs.
pub open spec fn config_path_of(xdg: Option<Seq<char>>, home: Option<Seq<char>>) -> Seq<char> {
    let base = if xdg is Some && xdg->0.len() > 0 {
        xdg->0
    } else if home is Some {
        joined(home->0, ".config"@)
    } else {
        ".config"@
    };
    joined(joined(base, "boswell"@), "config.toml"@)
}

/// Where the configuration is looked for: under `XDG_CONFIG_HOME` when it is
/// set and not empty; otherwise under `.config` in `HOME` when that is set,
/// whether `XDG_CONFIG_HOME` is unset or empty; otherwise under `.config`
/// where the daemon runs.
pub proof fn law_the_config_path_falls_back_in_order(xdg: Option<Seq<char>>, home: Option<Seq<char>>)
    ensures
        xdg matches Some(x) && x.len() > 0 ==> config_path_of(xdg, home) == joined(
            joined(xdg->0, "boswell"@),
            "config.toml"@,
        ),
        (xdg is None || xdg->0.len() == 0) && home is Some ==> config_path_of(xdg, home) == joined(
            joined(joined(home->0, ".config"@), "boswell"@),
            "config.toml"@,
        ),
        (xdg is None || xdg->0.len() == 0) && home is None ==> config_path_of(xdg, home) == joined(
            joined(".config"@, "boswell"@),
            "config.toml"@,
        ),
        config_path_of(None, home) == config_path_of(Some(Seq::<char>::empty()), home),
{
}

/// The default configuration path, given `XDG_CONFIG_HOME` and `HOME` as read.
pub fn default_config_path(xdg: &Option<String>, home: &Option<String>) -> (p: String)
    ensures
        p@ == config_path_of(xdg.deep_view(), home.deep_view()),
{
    let base = match xdg {
        Some(x) if !x.as_str().is_empty() => owned(x.as_str()),
        _ => match home {
            Some(h) => path_join(h.as_str(), ".config"),
            None => owned(".config"),
        },
    };
    let dir = path_join(base.as_str(), "boswell");
    path_join(dir.as_str(), "config.toml")
}

// ------------------------------------------------------------------------
// Checking the repositories
// ------------------------------------------------------------------------

/// What became of one configured repository path.
#[derive(Debug, Clone, PartialEq, Eq)]
pub enum Resolved {
    /// It resolved to the canonical `path`, which is or is not a work tree.
    Found { path: String, work_tree: bool },
    /// `expanded` could not be resolved, for the reason `error`.
    Missing { expanded: String, error: String },
}

/// What is wrong with a resolved repository, if anything.
pub open spec fn problem_of(r: Resolved) -> Option<Seq<char>> {
    match r {
        Resolved::Missing { expanded, error } => Some("repo path "@ + expanded@ + ": "@ + error@),
        Resolved::Found { path, work_tree } => if work_tree {
            None
        } else {
            Some(path@ + " is not a git work tree"@)
        },
    }
}

/// The error for a configuration without repositories.
pub open spec fn no_repos() -> Seq<char> {
    "no [[repo]] entries: boswell would watch nothing"@
}

fn problem(r: &Resolved) -> (p: Option<String>)
    ensures
        p.deep_view() == problem_of(*r),
{
    match r {
        Resolved::Missing { expanded, error } => {
            let mut m = owned("repo path ");
            m.append(expanded.as_str());
            m.append(": ");
            m.append(error.as_str());
            Some(m)
        },
        Resolved::Found { path, work_tree } => if *work_tree {
            None
        } else {
            let mut m = owned(path.as_str());
            m.append(" is not a git work tree");
            Some(m)
        },
    }
}

/// The path a repository resolved to.
pub open spec fn resolved_path(r: Resolved) -> Seq<char> {
    match r {
        Resolved::Found { path, .. } => path@,
        Resolved::Missing { expanded, .. } => expanded@,
    }
}

impl Config {
    /// Checks the configuration once each repository path has been expanded,
    /// resolved and asked whether it is a work tree (`resolved`, one per
    /// repository, in order). A configuration without repositories is
    /// rejected; otherwise the first repository with a problem is reported,
    /// and when there is none every path is replaced by the one it resolved to.
    pub fn prepare(&mut self, resolved: &Vec<Resolved>) -> (r: Result<(), String>)
        requires
            resolved.len() == old(self).repos.len(),
        ensures
            old(self).repos.len() == 0 ==> (r matches Err(m) && m@ == no_repos()),
            old(self).repos.len() > 0 ==> (r is Ok <==> forall|i: int|
                0 <= i < resolved.len() ==> problem_of(#[trigger] resolved@[i]) is None),
            old(self).repos.len() > 0 ==> (r matches Err(m) ==> (exists|i: int|
                0 <= i < resolved.len() && problem_of(#[trigger] resolved@[i]) == Some(m@)
                    && forall|j: int| 0 <= j < i ==> problem_of(resolved@[j]) is None)),
            final(self).github.api_url@ == old(self).github.api_url@,
            final(self).retry == old(self).retry,
            r is Err ==> final(self).repos@ == old(self).repos@,
            r is Ok ==> final(self).repos.len() == old(self).repos.len() && forall|i: int|
                0 <= i < final(self).repos.len() ==> {
                    &&& (#[trigger] final(self).repos@[i]).path@ == resolved_path(resolved@[i])
                    &&& final(self).repos@[i].debounce == old(self).repos@[i].debounce
                    &&& final(self).repos@[i].remote@ == old(self).repos@[i].remote@
                    &&& final(self).repos@[i].pull == old(self).repos@[i].pull
                    &&& final(self).repos@[i].recheck == old(self).repos@[i].recheck
                    &&& final(self).repos@[i].fetch_interval == old(self).repos@[i].fetch_interval
                },
    {
        if self.repos.len() == 0 {
            return Err(owned("no [[repo]] entries: boswell would watch nothing"));
        }
        let mut i: usize = 0;
        while i < resolved.len()
            invariant
                i <= resolved.len(),
                resolved.len() == old(self).repos.len(),
                forall|j: int| 0 <= j < i ==> problem_of(#[trigger] resolved@[j]) is None,
            decreases resolved.len() - i,
        {
            let p = problem(&resolved[i]);
            match p {
                Some(m) => {
                    return Err(m);
                },
                None => {},
            }
            i = i + 1;
        }
        let mut repos: Vec<Repo> = Vec::new();
        let ghost originals = self.repos@;
        let mut k: usize = 0;
        while k < resolved.len()
            invariant
                k <= resolved.len(),
                resolved.len() == originals.len(),
                self.repos@ == originals,
                repos.len() == k,
                forall|j: int| 0 <= j < k ==> {
                    &&& (#[trigger] repos@[j]).path@ == resolved_path(resolved@[j])
                    &&& repos@[j].debounce == originals[j].debounce
                    &&& repos@[j].remote@ == originals[j].remote@
                    &&& repos@[j].pull == originals[j].pull
                    &&& repos@[j].recheck == originals[j].recheck
                    &&& repos@[j].fetch_interval == originals[j].fetch_interval
                },
            decreases resolved.len() - k,
        {
            let path = match &resolved[k] {
                Resolved::Found { path, .. } => owned(path.as_str()),
                Resolved::Missing { expanded, .. } => owned(expanded.as_str()),
            };
            let o = &self.repos[k];
            repos.push(
                Repo {
                    path,
                    debounce: o.debounce,
                    remote: owned(o.remote.as_str()),
                    pull: o.pull,
                    recheck: o.recheck,
                    fetch_interval: o.fetch_interval,
                },
            );
            k = k + 1;
        }
        self.repos = repos;
        Ok(())
    }
}


/// `~` stands for the home directory only at the very front of a path, alone
/// or followed by `/`; a path that begins otherwise (`~user/x`, `a/~`) is
/// kept as it is, and without a home directory nothing is expanded.
pub proof fn law_tilde_means_home_only_in_front(path: Seq<char>, rest: Seq<char>, h: Seq<char>)
    ensures
        expanded(path, None) == path,
        expanded("~"@, Some(h)) == h,
        expanded("~/"@ + rest, Some(h)) == joined(h, rest),
        (path.len() == 0 || path[0] != '~') ==> expanded(path, Some(h)) == path,
        (path.len() >= 2 && path[0] == '~' && path[1] != '/') ==> expanded(path, Some(h)) == path,
{
    reveal_strlit("~");
    reveal_strlit("~/");
    assert(("~/"@ + rest).skip(2) =~= rest);
    assert("~/"@.is_prefix_of("~/"@ + rest));
    assert("~/"@ + rest != "~"@) by {
        assert(("~/"@ + rest).len() != "~"@.len());
    }
    if path.len() == 0 || path[0] != '~' {
        if path.len() > 0 {
            assert(path != "~"@);
            assert(!"~/"@.is_prefix_of(path)) by {
                assert(path[0] != "~/"@[0]);
            }
        } else {
            assert(path != "~"@);
        }
    }
    if path.len() >= 2 && path[0] == '~' && path[1] != '/' {
        assert(path != "~"@);
        assert(!"~/"@.is_prefix_of(path)) by {
            assert(path[1] != "~/"@[1]);
        }
    }
}
} // verus!
