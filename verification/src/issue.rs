//! Reporting a push that cannot land as a GitHub issue.
//!
//! Filing is a conversation with `git`, the token sources and the GitHub API.
//! `ReportPass` decides each step of it; whoever drives it performs the request
//! and hands back the answer.
use vstd::prelude::*;

use crate::git::{
    argv_in, stdout_of, trimmed_or_message, vars_with, Git, Invocation, Ran,
};
use crate::text::{
    after_prefix, all_white, lemma_trim_around, white_space, chars_of, collect, join, lines, nonempty_lines, owned, same,
    split_lines, strip_prefix, trim, trim_end, trim_str,
};

verus! {

/// The title every report carries; an open issue with it suppresses the next.
pub const TITLE: &'static str = "Auto-sync failed";

/// The title as characters.
pub open spec fn title() -> Seq<char> {
    "Auto-sync failed"@
}

fn title_text() -> (t: String)
    ensures
        t@ == title(),
{
    owned("Auto-sync failed")
}

/// How many lines of the last error a report shows.
pub const ERROR_LINES: usize = 40;

/// How many unpushed commits a report lists.
pub const COMMITTED_LINES: usize = 20;

/// How many uncommitted paths a report lists.
pub const UNCOMMITTED_LINES: usize = 40;

// ------------------------------------------------------------------------
// Slugs
// ------------------------------------------------------------------------

/// `s` without leading slashes.
pub open spec fn trim_start_slashes(s: Seq<char>) -> Seq<char>
    decreases s.len(),
{
    if s.len() > 0 && s[0] == '/' {
        trim_start_slashes(s.drop_first())
    } else {
        s
    }
}

/// `s` without trailing slashes.
pub open spec fn trim_end_slashes(s: Seq<char>) -> Seq<char>
    decreases s.len(),
{
    if s.len() > 0 && s.last() == '/' {
        trim_end_slashes(s.drop_last())
    } else {
        s
    }
}

/// `s` without slashes at either end.
pub open spec fn trim_slashes(s: Seq<char>) -> Seq<char> {
    trim_start_slashes(trim_end_slashes(s))
}

/// `s` without a final `.git`, when it has one.
pub open spec fn without_git_suffix(s: Seq<char>) -> Seq<char> {
    if ".git"@.is_suffix_of(s) {
        s.take(s.len() - 4)
    } else {
        s
    }
}

/// What follows the GitHub host in `url`, for the three spellings of a GitHub
/// remote: HTTPS, SSH URL and scp-like SSH.
pub open spec fn after_github(url: Seq<char>) -> Option<Seq<char>> {
    if after_prefix(url, "https://github.com/"@) is Some {
        after_prefix(url, "https://github.com/"@)
    } else if after_prefix(url, "ssh://git@github.com/"@) is Some {
        after_prefix(url, "ssh://git@github.com/"@)
    } else {
        after_prefix(url, "git@github.com:"@)
    }
}

/// The `owner/name` a GitHub remote URL points at, when it points at one.
pub open spec fn slug_of(url: Seq<char>) -> Option<Seq<char>> {
    match after_github(trim(url)) {
        None => None,
        Some(rest) => {
            let slug = trim_slashes(without_git_suffix(rest));
            if slug.len() == 0 {
                None
            } else {
                Some(slug)
            }
        },
    }
}

fn trim_slashes_in(v: &Vec<char>) -> (r: String)
    ensures
        r@ == trim_slashes(v@),
{
    let mut j = v.len();
    assert(v@.take(v.len() as int) =~= v@);
    while j > 0 && v[j - 1] == '/'
        invariant
            j <= v.len(),
            trim_end_slashes(v@) == trim_end_slashes(v@.take(j as int)),
        decreases j,
    {
        assert(v@.take(j as int).drop_last() =~= v@.take(j - 1));
        j = j - 1;
    }
    assert(v@.take(v.len() as int) =~= v@);
    let mut i: usize = 0;
    assert(v@.take(j as int).subrange(0, j as int) =~= v@.take(j as int));
    while i < j && v[i] == '/'
        invariant
            i <= j <= v.len(),
            trim_end_slashes(v@) == v@.take(j as int),
            trim_slashes(v@) == trim_start_slashes(v@.subrange(i as int, j as int)),
        decreases j - i,
    {
        assert(v@.subrange(i as int, j as int).drop_first() =~= v@.subrange(i + 1, j as int));
        i = i + 1;
    }
    assert(v@.subrange(i as int, j as int) =~= v@.subrange(i as int, j as int));
    collect(v, i, j)
}

fn without_git_suffix_in(v: &Vec<char>) -> (r: Vec<char>)
    ensures
        r@ == without_git_suffix(v@),
{
    let n = v.len();
    if n >= 4 && v[n - 4] == '.' && v[n - 3] == 'g' && v[n - 2] == 'i' && v[n - 1] == 't' {
        proof {
            reveal_strlit(".git");
            assert(".git"@ =~= v@.subrange(n - 4, n as int));
        }
        let mut r: Vec<char> = Vec::new();
        let mut i: usize = 0;
        while i < n - 4
            invariant
                n == v.len(),
                n >= 4,
                i <= n - 4,
                r@ == v@.take(i as int),
            decreases n - 4 - i,
        {
            r.push(v[i]);
            assert(v@.take(i + 1) =~= v@.take(i as int).push(v@[i as int]));
            i = i + 1;
        }
        r
    } else {
        proof {
            reveal_strlit(".git");
            if ".git"@.is_suffix_of(v@) {
                assert(v@[n - 4] == ".git"@[0]);
                assert(v@[n - 3] == ".git"@[1]);
                assert(v@[n - 2] == ".git"@[2]);
                assert(v@[n - 1] == ".git"@[3]);
            }
        }
        let mut r: Vec<char> = Vec::new();
        let mut i: usize = 0;
        while i < n
            invariant
                n == v.len(),
                i <= n,
                r@ == v@.take(i as int),
            decreases n - i,
        {
            r.push(v[i]);
            assert(v@.take(i + 1) =~= v@.take(i as int).push(v@[i as int]));
            i = i + 1;
        }
        assert(v@.take(n as int) =~= v@);
        r
    }
}

/// The `owner/name` of a GitHub remote, read from any of its three spellings;
/// `None` for anything else, a local path among them.
pub fn slug_from_remote_url(url: &str) -> (slug: Option<String>)
    ensures
        slug.deep_view() == slug_of(url@),
{
    let url = trim_str(url);
    let rest = match strip_prefix(url.as_str(), "https://github.com/") {
        Some(r) => Some(r),
        None => match strip_prefix(url.as_str(), "ssh://git@github.com/") {
            Some(r) => Some(r),
            None => strip_prefix(url.as_str(), "git@github.com:"),
        },
    };
    match rest {
        None => None,
        Some(rest) => {
            let v = chars_of(rest.as_str());
            let stripped = without_git_suffix_in(&v);
            let slug = trim_slashes_in(&stripped);
            if slug.as_str().is_empty() {
                None
            } else {
                Some(slug)
            }
        },
    }
}

/// One of the three ways a GitHub remote URL begins.
pub open spec fn github_prefix(p: Seq<char>) -> bool {
    p == "https://github.com/"@ || p == "ssh://git@github.com/"@ || p == "git@github.com:"@
}

/// Stripping slashes from the end leaves nothing, or something that does not
/// end in one.
proof fn lemma_trim_end_slashes_shape(s: Seq<char>)
    ensures
        trim_end_slashes(s).len() == 0 || trim_end_slashes(s).last() != '/',
        trim_end_slashes(s).len() <= s.len(),
        trim_end_slashes(s) =~= s.take(trim_end_slashes(s).len() as int),
    decreases s.len(),
{
    if s.len() > 0 && s.last() == '/' {
        lemma_trim_end_slashes_shape(s.drop_last());
    }
}

/// Stripping slashes from the start leaves a tail that does not begin with one.
proof fn lemma_trim_start_slashes_shape(s: Seq<char>)
    ensures
        trim_start_slashes(s).len() == 0 || trim_start_slashes(s)[0] != '/',
        trim_start_slashes(s).len() <= s.len(),
        trim_start_slashes(s) =~= s.skip(s.len() - trim_start_slashes(s).len()),
    decreases s.len(),
{
    if s.len() > 0 && s[0] == '/' {
        lemma_trim_start_slashes_shape(s.drop_first());
    }
}

/// A slug read from a remote URL is never empty and has no slash at either end.
pub proof fn law_a_slug_has_no_outer_slashes(url: Seq<char>)
    ensures
        slug_of(url) matches Some(t) ==> t.len() > 0 && t[0] != '/' && t.last() != '/',
{
    if let Some(rest) = after_github(trim(url)) {
        let v = without_git_suffix(rest);
        let e = trim_end_slashes(v);
        lemma_trim_end_slashes_shape(v);
        lemma_trim_start_slashes_shape(e);
        let t = trim_start_slashes(e);
        if t.len() > 0 {
            assert(t.last() == e.last());
        }
    }
}

/// A remote URL written as one of the three GitHub spellings of a slug, with
/// or without `.git` and with white space around it, gives that slug back;
/// one that begins with none of them, once trimmed, gives none.
pub proof fn law_slug_round_trip(
    w1: Seq<char>,
    prefix: Seq<char>,
    slug: Seq<char>,
    suffix: Seq<char>,
    w2: Seq<char>,
)
    requires
        github_prefix(prefix),
        suffix == Seq::<char>::empty() || suffix == ".git"@,
        slug.len() > 0,
        slug[0] != '/',
        slug.last() != '/',
        !white_space(slug.last()),
        !".git"@.is_suffix_of(slug),
        all_white(w1),
        all_white(w2),
    ensures
        slug_of(w1 + prefix + slug + suffix + w2) == Some(slug),
{
    reveal_strlit("https://github.com/");
    reveal_strlit("ssh://git@github.com/");
    reveal_strlit("git@github.com:");
    reveal_strlit(".git");
    let rest = slug + suffix;
    let u = prefix + rest;
    assert(prefix + slug + suffix =~= u);
    assert(w1 + prefix + slug + suffix + w2 =~= w1 + u + w2);
    assert(u[0] == prefix[0]);
    assert(!white_space(u.last())) by {
        if suffix.len() > 0 {
            assert(u.last() == 't');
        } else {
            assert(u.last() == slug.last());
        }
    }
    lemma_trim_around(w1, u, w2);
    assert(prefix.is_prefix_of(u));
    assert(u.skip(prefix.len() as int) =~= rest);
    if prefix != "https://github.com/"@ {
        assert(u[0] != "https://github.com/"@[0]);
    }
    if prefix == "git@github.com:"@ {
        assert(u[0] != "ssh://git@github.com/"@[0]);
    }
    assert(after_github(u) == Some(rest));
    if suffix.len() > 0 {
        assert(".git"@.is_suffix_of(rest)) by {
            assert(rest.skip(rest.len() - 4) =~= ".git"@);
        }
        assert(rest.take(rest.len() - 4) =~= slug);
    } else {
        assert(rest =~= slug);
    }
    assert(without_git_suffix(rest) == slug);
    assert(trim_end_slashes(slug) == slug);
    assert(trim_start_slashes(slug) == slug);
}

// ------------------------------------------------------------------------
// Tokens
// ------------------------------------------------------------------------

/// Where the GitHub token comes from.
#[derive(Debug, Clone)]
pub enum TokenSource {
    /// `GH_TOKEN`, then `GITHUB_TOKEN`, then `gh auth token`.
    Environment,
    /// This token.
    Fixed(String),
}

/// The first of the environment's token variables that holds something other
/// than white space, trimmed.
pub open spec fn env_token_of(gh_token: Option<Seq<char>>, github_token: Option<Seq<char>>) -> Option<
    Seq<char>,
> {
    if gh_token is Some && trim(gh_token->0).len() > 0 {
        Some(trim(gh_token->0))
    } else if github_token is Some && trim(github_token->0).len() > 0 {
        Some(trim(github_token->0))
    } else {
        None
    }
}

fn usable(value: &Option<String>) -> (t: Option<String>)
    ensures
        t.deep_view() == (if value is Some && trim(value->0@).len() > 0 {
            Some(trim(value->0@))
        } else {
            None
        }),
{
    match value {
        Some(v) => {
            let t = trim_str(v.as_str());
            if t.as_str().is_empty() {
                None
            } else {
                Some(t)
            }
        },
        None => None,
    }
}

fn env_token(gh_token: &Option<String>, github_token: &Option<String>) -> (t: Option<String>)
    ensures
        t.deep_view() == env_token_of(gh_token.deep_view(), github_token.deep_view()),
{
    let first = usable(gh_token);
    if first.is_some() {
        first
    } else {
        usable(github_token)
    }
}

fn fixed_token(source: &TokenSource) -> (t: Option<String>)
    ensures
        t.deep_view() == fixed_of(*source),
{
    match source {
        TokenSource::Fixed(token) => Some(owned(token.as_str())),
        TokenSource::Environment => None,
    }
}

impl TokenSource {
    /// The token, as far as it can be had without asking the GitHub CLI: the
    /// fixed one, or the first usable of `GH_TOKEN` and `GITHUB_TOKEN` (given
    /// here as read). `None` from the environment means the CLI is asked next.
    pub fn resolve(&self, gh_token: &Option<String>, github_token: &Option<String>) -> (t: Option<String>)
        ensures
            t.deep_view() == match self {
                TokenSource::Fixed(token) => Some(token@),
                TokenSource::Environment => env_token_of(
                    gh_token.deep_view(),
                    github_token.deep_view(),
                ),
            },
    {
        match self {
            TokenSource::Fixed(token) => Some(owned(token.as_str())),
            TokenSource::Environment => env_token(gh_token, github_token),
        }
    }
}

/// The token `gh auth token` printed: its trimmed output when it succeeded
/// with something to say.
pub fn token_from_cli(success: bool, stdout: &str) -> (t: Option<String>)
    ensures
        t.deep_view() == (if success && trim(stdout@).len() > 0 {
            Some(trim(stdout@))
        } else {
            None
        }),
{
    if !success {
        return None;
    }
    let t = trim_str(stdout);
    if t.as_str().is_empty() {
        None
    } else {
        Some(t)
    }
}

/// The token the GitHub CLI gave: none when it could not be run, else as
/// `token_from_cli` reads its answer.
pub open spec fn cli_token_of(cli: Option<(bool, Seq<char>)>) -> Option<Seq<char>> {
    match cli {
        Some((success, stdout)) => if success && trim(stdout).len() > 0 {
            Some(trim(stdout))
        } else {
            None
        },
        None => None,
    }
}

/// The token a source fixes in advance, if it fixes one.
pub open spec fn fixed_of(source: TokenSource) -> Option<Seq<char>> {
    match source {
        TokenSource::Fixed(token) => Some(token@),
        TokenSource::Environment => None,
    }
}

/// The token a report uses: the fixed one; else the first usable of
/// `GH_TOKEN` and `GITHUB_TOKEN`; else what `gh auth token` printed.
pub open spec fn token_chosen(
    fixed: Option<Seq<char>>,
    gh_token: Option<Seq<char>>,
    github_token: Option<Seq<char>>,
    cli: Option<(bool, Seq<char>)>,
) -> Option<Seq<char>> {
    if fixed is Some {
        fixed
    } else if env_token_of(gh_token, github_token) is Some {
        env_token_of(gh_token, github_token)
    } else {
        cli_token_of(cli)
    }
}

// ------------------------------------------------------------------------
// The report
// ------------------------------------------------------------------------

/// The host name: the first candidate file whose trimmed content is not
/// empty, or `an unknown host`.
pub open spec fn host_of(candidates: Seq<Option<Seq<char>>>) -> Seq<char>
    decreases candidates.len(),
{
    if candidates.len() == 0 {
        "an unknown host"@
    } else if candidates[0] is Some && trim(candidates[0]->0).len() > 0 {
        trim(candidates[0]->0)
    } else {
        host_of(candidates.drop_first())
    }
}

/// The host name from what `/proc/sys/kernel/hostname` and `/etc/hostname`
/// held, in that order, each `None` when it could not be read.
pub fn hostname(candidates: &Vec<Option<String>>) -> (h: String)
    ensures
        h@ == host_of(candidates.deep_view()),
{
    let mut i: usize = 0;
    assert(candidates.deep_view().skip(0) =~= candidates.deep_view());
    while i < candidates.len()
        invariant
            i <= candidates.len(),
            host_of(candidates.deep_view()) == host_of(candidates.deep_view().skip(i as int)),
        decreases candidates.len() - i,
    {
        assert(candidates.deep_view().skip(i as int).drop_first() =~= candidates.deep_view().skip(
            i + 1,
        ));
        assert(candidates.deep_view().skip(i as int)[0] == candidates.deep_view()[i as int]);
        match &candidates[i] {
            Some(c) => {
                let t = trim_str(c.as_str());
                if !t.as_str().is_empty() {
                    return t;
                }
            },
            None => {},
        }
        i = i + 1;
    }
    owned("an unknown host")
}

/// `lines`, at most `limit` of them, in a fenced block; `(nothing)` when there
/// are none.
pub open spec fn fenced_of(lines: Seq<Seq<char>>, limit: nat) -> Seq<char> {
    if lines.len() == 0 {
        "```\n(nothing)\n```"@
    } else {
        let shown = if lines.len() <= limit {
            lines
        } else {
            lines.take(limit as int)
        };
        "```\n"@ + join(shown, "\n"@) + "\n```"@
    }
}

/// `lines`, at most `limit` of them, as a fenced block.
pub fn fenced(lines: &Vec<String>, limit: usize) -> (f: String)
    ensures
        f@ == fenced_of(lines.deep_view(), limit as nat),
{
    if lines.len() == 0 {
        return owned("```\n(nothing)\n```");
    }
    let n = if lines.len() <= limit {
        lines.len()
    } else {
        limit
    };
    let mut f = owned("```\n");
    let shown = crate::text::join_first(lines, n, "\n");
    f.append(shown.as_str());
    f.append("\n```");
    proof {
        if lines.len() <= limit {
            assert(lines.deep_view().take(n as int) =~= lines.deep_view());
        }
    }
    f
}

/// The lines of an error as a report shows them: none when it is only white
/// space, else the lines of its trimmed text.
pub open spec fn error_lines(error_output: Seq<char>) -> Seq<Seq<char>> {
    if trim(error_output).len() == 0 {
        seq![]
    } else {
        lines(trim(error_output))
    }
}

/// The body of a report about the work tree at `path`, which could not be
/// pushed to `remote` from `host`.
pub open spec fn body_of(
    path: Seq<char>,
    remote: Seq<char>,
    host: Seq<char>,
    error_output: Seq<char>,
    committed: Seq<Seq<char>>,
    uncommitted: Seq<Seq<char>>,
) -> Seq<char> {
    "`"@ + path + "` could not be pushed to `"@ + remote + "` on "@ + host
        + ".\n\nNothing written there since is upstream, and nothing new will reach the origin until this is fixed by hand.\n\nFix the push, then **close this issue**: while it is open boswell suppresses the next report, so leaving it open hides the following failure.\n\n## Last push or pull error\n\n"@
        + fenced_of(error_lines(error_output), ERROR_LINES as nat)
        + "\n\n## Committed but not pushed\n\n"@ + fenced_of(committed, COMMITTED_LINES as nat)
        + "\n\n## Uncommitted\n\n"@ + fenced_of(uncommitted, UNCOMMITTED_LINES as nat) + "\n"@
}

/// The body of a report: where it happened, the last error, the commits
/// stuck locally and what is still uncommitted.
pub fn issue_body(
    path: &str,
    remote: &str,
    host: &str,
    error_output: &str,
    committed: &Vec<String>,
    uncommitted: &Vec<String>,
) -> (b: String)
    ensures
        b@ == body_of(
            path@,
            remote@,
            host@,
            error_output@,
            committed.deep_view(),
            uncommitted.deep_view(),
        ),
{
    let trimmed = trim_str(error_output);
    let error = if trimmed.as_str().is_empty() {
        let none: Vec<String> = Vec::new();
        assert(none.deep_view() =~= Seq::<Seq<char>>::empty());
        none
    } else {
        split_lines(trimmed.as_str())
    };
    let mut b = owned("`");
    b.append(path);
    b.append("` could not be pushed to `");
    b.append(remote);
    b.append("` on ");
    b.append(host);
    b.append(
        ".\n\nNothing written there since is upstream, and nothing new will reach the origin until this is fixed by hand.\n\nFix the push, then **close this issue**: while it is open boswell suppresses the next report, so leaving it open hides the following failure.\n\n## Last push or pull error\n\n",
    );
    let e = fenced(&error, ERROR_LINES);
    b.append(e.as_str());
    b.append("\n\n## Committed but not pushed\n\n");
    let c = fenced(committed, COMMITTED_LINES);
    b.append(c.as_str());
    b.append("\n\n## Uncommitted\n\n");
    let u = fenced(uncommitted, UNCOMMITTED_LINES);
    b.append(u.as_str());
    b.append("\n");
    b
}

/// Whether any of `titles` is the report's title.
pub open spec fn lists_report(titles: Seq<Seq<char>>) -> bool {
    exists|i: int| 0 <= i < titles.len() && titles[i] == title()
}

/// Whether the open issues, given by their titles, include a report.
pub fn has_report(titles: &Vec<String>) -> (open: bool)
    ensures
        open == lists_report(titles.deep_view()),
{
    let mut i: usize = 0;
    while i < titles.len()
        invariant
            i <= titles.len(),
            forall|k: int| 0 <= k < i ==> titles.deep_view()[k] != title(),
        decreases titles.len() - i,
    {
        if same(titles[i].as_str(), TITLE) {
            proof {
                reveal_strlit("Auto-sync failed");
            }
            assert(titles.deep_view()[i as int] == title());
            return true;
        }
        proof {
            reveal_strlit("Auto-sync failed");
        }
        i = i + 1;
    }
    false
}

/// Whether a report is still open, when the answer to that is in doubt: not
/// knowing counts as open, so pulling does not resume into a tree nobody has
/// looked at.
pub fn still_reported(answer: &Result<bool, String>) -> (open: bool)
    ensures
        open == match answer {
            Ok(open) => *open,
            Err(_) => true,
        },
{
    match answer {
        Ok(open) => *open,
        Err(_) => true,
    }
}


// ------------------------------------------------------------------------
// The reporter
// ------------------------------------------------------------------------

/// Files reports against the GitHub API at `api_url`.
pub struct Reporter {
    api_url: String,
    token: TokenSource,
}

/// The error when no token can be found.
pub open spec fn no_token() -> Seq<char> {
    "no GitHub token in GH_TOKEN, GITHUB_TOKEN or `gh auth token`"@
}

/// The error for a remote that is not on GitHub.
pub open spec fn not_github(remote: Seq<char>, url: Seq<char>) -> Seq<char> {
    "remote "@ + remote + " is not a GitHub repository: "@ + url
}

/// Where the open issues of `slug` are listed.
pub open spec fn query_url_of(api_url: Seq<char>, slug: Seq<char>) -> Seq<char> {
    api_url + "/repos/"@ + slug + "/issues?state=open&per_page=100"@
}

/// Where an issue against `slug` is filed.
pub open spec fn issues_url_of(api_url: Seq<char>, slug: Seq<char>) -> Seq<char> {
    api_url + "/repos/"@ + slug + "/issues"@
}

/// The headers of every API request made with `token`.
pub open spec fn headers_of(token: Seq<char>) -> Seq<(Seq<char>, Seq<char>)> {
    seq![
        ("Authorization"@, "Bearer "@ + token),
        ("Accept"@, "application/vnd.github+json"@),
        ("X-GitHub-Api-Version"@, "2022-11-28"@),
        ("User-Agent"@, "boswell"@),
    ]
}

/// The headers of every API request made with `token`.
pub fn headers(token: &str) -> (h: Vec<(String, String)>)
    ensures
        h.deep_view() == headers_of(token@),
{
    let mut bearer = owned("Bearer ");
    bearer.append(token);
    let mut h: Vec<(String, String)> = Vec::new();
    h.push((owned("Authorization"), bearer));
    h.push((owned("Accept"), owned("application/vnd.github+json")));
    h.push((owned("X-GitHub-Api-Version"), owned("2022-11-28")));
    h.push((owned("User-Agent"), owned("boswell")));
    assert(h.deep_view() =~= headers_of(token@));
    h
}

fn api_path(api_url: &str, slug: &str, tail: &str) -> (u: String)
    ensures
        u@ == api_url@ + "/repos/"@ + slug@ + tail@,
{
    let mut u = owned(api_url);
    u.append("/repos/");
    u.append(slug);
    u.append(tail);
    u
}

impl Reporter {
    /// The API root, without trailing slashes.
    pub closed spec fn api_url_view(&self) -> Seq<char> {
        self.api_url@
    }

    /// Where the token comes from.
    pub closed spec fn token_view(&self) -> TokenSource {
        self.token
    }

    /// A reporter for the API at `api_url`, taking its token from `token`.
    pub fn new(api_url: &str, token: TokenSource) -> (r: Reporter)
        ensures
            r.api_url_view() == trim_end_slashes(api_url@),
            r.token_view() == token,
    {
        let v = chars_of(api_url);
        let mut j = v.len();
        assert(v@.take(v.len() as int) =~= v@);
        while j > 0 && v[j - 1] == '/'
            invariant
                j <= v.len(),
                trim_end_slashes(v@) == trim_end_slashes(v@.take(j as int)),
            decreases j,
        {
            assert(v@.take(j as int).drop_last() =~= v@.take(j - 1));
            j = j - 1;
        }
        assert(v@.take(j as int) =~= v@.subrange(0, j as int));
        Reporter { api_url: collect(&v, 0, j), token }
    }

    /// Where the token comes from.
    pub fn token(&self) -> (t: &TokenSource)
        ensures
            *t == self.token_view(),
    {
        &self.token
    }

    /// The API root.
    pub fn api_url(&self) -> (u: &str)
        ensures
            u@ == self.api_url_view(),
    {
        self.api_url.as_str()
    }
}

/// How a report or a check ended.
#[derive(Debug, Clone, PartialEq, Eq)]
pub enum Ending {
    /// The check found an open report, or found none.
    Open(bool),
    /// A report is already open against this slug, so none was filed.
    AlreadyOpen(String),
    /// A report was filed against this slug.
    Filed(String),
    /// The report or check could not be made.
    Failed(String),
}

/// An `Ending` with its strings as characters.
pub enum EndingView {
    Open(bool),
    AlreadyOpen(Seq<char>),
    Filed(Seq<char>),
    Failed(Seq<char>),
}

impl View for Ending {
    type V = EndingView;

    open spec fn view(&self) -> EndingView {
        match self {
            Ending::Open(b) => EndingView::Open(*b),
            Ending::AlreadyOpen(s) => EndingView::AlreadyOpen(s@),
            Ending::Filed(s) => EndingView::Filed(s@),
            Ending::Failed(s) => EndingView::Failed(s@),
        }
    }
}

/// What a report asks of whoever drives it.
#[derive(Debug, Clone, PartialEq, Eq)]
pub enum Request {
    /// Run this `git` process; answer `Answer::Ran`.
    Git(Invocation),
    /// Read `GH_TOKEN` and `GITHUB_TOKEN`; answer `Answer::Env`.
    EnvToken,
    /// Run `gh auth token`; answer `Answer::Cli`.
    CliToken,
    /// Read the host name; answer `Answer::Host`.
    Host,
    /// List the open issues (GET); answer `Answer::Listed` with their titles.
    Get { url: String, headers: Vec<(String, String)> },
    /// File an issue (POST, JSON with `title` and `body`); answer `Answer::Filed`.
    Post { url: String, headers: Vec<(String, String)>, title: String, body: String },
    /// Nothing more to do.
    Done(Ending),
}

/// A `Request` with its strings as characters.
pub enum RequestView {
    Git(Seq<Seq<char>>, Seq<(Seq<char>, Seq<char>)>),
    EnvToken,
    CliToken,
    Host,
    Get { url: Seq<char>, headers: Seq<(Seq<char>, Seq<char>)> },
    Post {
        url: Seq<char>,
        headers: Seq<(Seq<char>, Seq<char>)>,
        title: Seq<char>,
        body: Seq<char>,
    },
    Done(EndingView),
}

impl View for Request {
    type V = RequestView;

    open spec fn view(&self) -> RequestView {
        match self {
            Request::Git(inv) => RequestView::Git(inv.argv(), inv.vars()),
            Request::EnvToken => RequestView::EnvToken,
            Request::CliToken => RequestView::CliToken,
            Request::Host => RequestView::Host,
            Request::Get { url, headers } => RequestView::Get {
                url: url@,
                headers: headers.deep_view(),
            },
            Request::Post { url, headers, title, body } => RequestView::Post {
                url: url@,
                headers: headers.deep_view(),
                title: title@,
                body: body@,
            },
            Request::Done(e) => RequestView::Done(e@),
        }
    }
}

/// The answer to the last request.
pub enum Answer {
    /// The report is starting.
    Begin,
    Ran(Ran),
    /// The two token variables as read, `None` where unset.
    Env { gh_token: Option<String>, github_token: Option<String> },
    /// Whether `gh auth token` succeeded and what it printed; `None` when it
    /// could not be run.
    Cli(Option<(bool, String)>),
    /// The titles of the open issues, or why they could not be listed.
    Listed(Result<Vec<String>, String>),
    Host(String),
    /// Whether the issue was filed.
    Filed(Result<(), String>),
}

/// Where a report stands.
#[derive(Clone, Copy, PartialEq, Eq, Structural)]
pub enum Stage {
    Start,
    ConfiguredUrl,
    GetUrl,
    EnvToken,
    CliToken,
    Query,
    Host,
    Committed,
    Uncommitted,
    Post,
    Done,
}

/// A report as values.
pub struct ReportView {
    pub check_only: bool,
    pub remote: Seq<char>,
    pub error_output: Seq<char>,
    pub api_url: Seq<char>,
    pub fixed: Option<Seq<char>>,
    pub stage: Stage,
    pub slug: Seq<char>,
    pub token: Seq<char>,
    pub host: Seq<char>,
    pub committed: Seq<Seq<char>>,
    pub uncommitted: Seq<Seq<char>>,
}

/// The answer's command result.
pub open spec fn ran_in(a: Answer) -> Ran {
    match a {
        Answer::Ran(r) => r,
        _ => arbitrary(),
    }
}

impl ReportView {
    /// Whether `a` is the answer this report waits for.
    pub open spec fn accepts(self, a: Answer) -> bool {
        match self.stage {
            Stage::Start => a is Begin,
            Stage::ConfiguredUrl | Stage::GetUrl | Stage::Committed | Stage::Uncommitted => a is Ran,
            Stage::EnvToken => a is Env,
            Stage::CliToken => a is Cli,
            Stage::Query => a is Listed,
            Stage::Host => a is Host,
            Stage::Post => a is Filed,
            Stage::Done => false,
        }
    }

    pub open spec fn end(self, e: EndingView) -> (ReportView, RequestView) {
        (ReportView { stage: Stage::Done, ..self }, RequestView::Done(e))
    }

    pub open spec fn git(self, git: Git, stage: Stage, args: Seq<Seq<char>>) -> (ReportView, RequestView) {
        (
            ReportView { stage, ..self },
            RequestView::Git(git.invocation(args).0, git.invocation(args).1),
        )
    }

    /// With a token in hand: list the open issues.
    pub open spec fn query(self, token: Seq<char>) -> (ReportView, RequestView) {
        (
            ReportView { token, stage: Stage::Query, ..self },
            RequestView::Get { url: query_url_of(self.api_url, self.slug), headers: headers_of(token) },
        )
    }

    /// With the remote's URL known: a GitHub slug, then the fixed token, or
    /// else the environment's.
    pub open spec fn with_url(self, url: Seq<char>) -> (ReportView, RequestView) {
        match slug_of(url) {
            None => self.end(EndingView::Failed(not_github(self.remote, url))),
            Some(slug) => match self.fixed {
                Some(token) => ReportView { slug, ..self }.query(token),
                None => (ReportView { slug, stage: Stage::EnvToken, ..self }, RequestView::EnvToken),
            },
        }
    }

    /// The next state and request, given the answer `a` in work tree `git`.
    pub open spec fn advance(self, git: Git, a: Answer) -> (ReportView, RequestView) {
        let ran = ran_in(a);
        match self.stage {
            Stage::Start => self.git(
                git,
                Stage::ConfiguredUrl,
                seq!["config"@, "--get"@, "remote."@ + self.remote + ".url"@],
            ),
            Stage::ConfiguredUrl => match ran {
                Err(why) => self.end(EndingView::Failed(why@)),
                Ok(out) => if out.success && trim(out.stdout@).len() > 0 {
                    self.with_url(trim(out.stdout@))
                } else {
                    self.git(git, Stage::GetUrl, seq!["remote"@, "get-url"@, self.remote])
                },
            },
            Stage::GetUrl => match trimmed_or_message(ran) {
                Ok(url) => self.with_url(url),
                Err(why) => self.end(EndingView::Failed(why)),
            },
            Stage::EnvToken => match a {
                Answer::Env { gh_token, github_token } => match env_token_of(
                    gh_token.deep_view(),
                    github_token.deep_view(),
                ) {
                    Some(token) => self.query(token),
                    None => (ReportView { stage: Stage::CliToken, ..self }, RequestView::CliToken),
                },
                _ => arbitrary(),
            },
            Stage::CliToken => match a {
                Answer::Cli(cli) => match cli_token_of(cli.deep_view()) {
                    Some(token) => self.query(token),
                    None => self.end(EndingView::Failed(no_token())),
                },
                _ => arbitrary(),
            },
            Stage::Query => match a {
                Answer::Listed(Ok(titles)) => if self.check_only {
                    self.end(EndingView::Open(lists_report(titles.deep_view())))
                } else if lists_report(titles.deep_view()) {
                    self.end(EndingView::AlreadyOpen(self.slug))
                } else {
                    (ReportView { stage: Stage::Host, ..self }, RequestView::Host)
                },
                Answer::Listed(Err(why)) => self.end(EndingView::Failed(why@)),
                _ => arbitrary(),
            },
            Stage::Host => match a {
                Answer::Host(h) => ReportView { host: h@, ..self }.git(
                    git,
                    Stage::Committed,
                    seq!["log"@, "--oneline"@, "@{upstream}..HEAD"@],
                ),
                _ => arbitrary(),
            },
            Stage::Committed => ReportView {
                committed: nonempty_lines(stdout_of(ran)),
                ..self
            }.git(git, Stage::Uncommitted, seq!["status"@, "--porcelain"@]),
            Stage::Uncommitted => {
                let uncommitted = nonempty_lines(stdout_of(ran));
                (
                    ReportView { uncommitted, stage: Stage::Post, ..self },
                    RequestView::Post {
                        url: issues_url_of(self.api_url, self.slug),
                        headers: headers_of(self.token),
                        title: title(),
                        body: body_of(
                            git.dir_view(),
                            self.remote,
                            self.host,
                            self.error_output,
                            self.committed,
                            uncommitted,
                        ),
                    },
                )
            },
            Stage::Post => match a {
                Answer::Filed(Ok(())) => self.end(EndingView::Filed(self.slug)),
                Answer::Filed(Err(why)) => self.end(EndingView::Failed(why@)),
                _ => arbitrary(),
            },
            Stage::Done => (self, arbitrary()),
        }
    }
}

/// Filing a report, or checking for an open one, in progress.
pub struct ReportPass {
    check_only: bool,
    remote: String,
    error_output: String,
    api_url: String,
    fixed: Option<String>,
    stage: Stage,
    slug: String,
    token: String,
    host: String,
    committed: Vec<String>,
    uncommitted: Vec<String>,
}

impl View for ReportPass {
    type V = ReportView;

    closed spec fn view(&self) -> ReportView {
        ReportView {
            check_only: self.check_only,
            remote: self.remote@,
            error_output: self.error_output@,
            api_url: self.api_url@,
            fixed: self.fixed.deep_view(),
            stage: self.stage,
            slug: self.slug@,
            token: self.token@,
            host: self.host@,
            committed: self.committed.deep_view(),
            uncommitted: self.uncommitted.deep_view(),
        }
    }
}

impl ReportPass {
    /// A report about `error_output`, for the repository whose remote is
    /// `remote`, filed through `reporter`.
    pub fn report(reporter: &Reporter, remote: &str, error_output: &str) -> (pass: ReportPass)
        ensures
            pass@.stage == Stage::Start,
            !pass@.check_only,
            pass@.remote == remote@,
            pass@.error_output == error_output@,
            pass@.api_url == reporter.api_url_view(),
            pass@.fixed == fixed_of(reporter.token_view()),
    {
        ReportPass {
            check_only: false,
            remote: owned(remote),
            error_output: owned(error_output),
            api_url: owned(reporter.api_url()),
            fixed: fixed_token(reporter.token()),
            stage: Stage::Start,
            slug: String::new(),
            token: String::new(),
            host: String::new(),
            committed: Vec::new(),
            uncommitted: Vec::new(),
        }
    }

    /// A check for an open report against the repository whose remote is `remote`.
    pub fn check(reporter: &Reporter, remote: &str) -> (pass: ReportPass)
        ensures
            pass@.stage == Stage::Start,
            pass@.check_only,
            pass@.remote == remote@,
            pass@.api_url == reporter.api_url_view(),
            pass@.fixed == fixed_of(reporter.token_view()),
    {
        ReportPass {
            check_only: true,
            remote: owned(remote),
            error_output: String::new(),
            api_url: owned(reporter.api_url()),
            fixed: fixed_token(reporter.token()),
            stage: Stage::Start,
            slug: String::new(),
            token: String::new(),
            host: String::new(),
            committed: Vec::new(),
            uncommitted: Vec::new(),
        }
    }

    fn end(&mut self, e: Ending) -> (r: Request)
        ensures
            (final(self)@, r@) == old(self)@.end(e@),
    {
        self.stage = Stage::Done;
        Request::Done(e)
    }

    fn query(&mut self, token: String) -> (r: Request)
        ensures
            (final(self)@, r@) == old(self)@.query(token@),
    {
        let url = api_path(
            self.api_url.as_str(),
            self.slug.as_str(),
            "/issues?state=open&per_page=100",
        );
        let h = headers(token.as_str());
        self.token = token;
        self.stage = Stage::Query;
        Request::Get { url, headers: h }
    }

    fn with_url(&mut self, url: String) -> (r: Request)
        ensures
            (final(self)@, r@) == old(self)@.with_url(url@),
    {
        match slug_from_remote_url(url.as_str()) {
            None => {
                let mut why = owned("remote ");
                why.append(self.remote.as_str());
                why.append(" is not a GitHub repository: ");
                why.append(url.as_str());
                self.end(Ending::Failed(why))
            },
            Some(slug) => {
                self.slug = slug;
                match &self.fixed {
                    Some(token) => {
                        let token = owned(token.as_str());
                        self.query(token)
                    },
                    None => {
                        self.stage = Stage::EnvToken;
                        Request::EnvToken
                    },
                }
            },
        }
    }

    /// The next request, given the answer `answer` to the last one; `git` is
    /// the work tree being reported on.
    pub fn step(&mut self, git: &Git, answer: Answer) -> (r: Request)
        requires
            old(self)@.accepts(answer),
        ensures
            (final(self)@, r@) == old(self)@.advance(*git, answer),
    {
        match answer {
            Answer::Begin => {
                let inv = git.remote_url(self.remote.as_str());
                self.stage = Stage::ConfiguredUrl;
                Request::Git(inv)
            },
            Answer::Ran(ran) => {
                if self.stage == Stage::ConfiguredUrl {
                    match ran {
                        Err(why) => self.end(Ending::Failed(why)),
                        Ok(out) => {
                            let t = trim_str(out.stdout.as_str());
                            if out.success && !t.as_str().is_empty() {
                                self.with_url(t)
                            } else {
                                let inv = git.remote_get_url(self.remote.as_str());
                                self.stage = Stage::GetUrl;
                                Request::Git(inv)
                            }
                        },
                    }
                } else if self.stage == Stage::GetUrl {
                    match Git::read_trimmed(&ran) {
                        Ok(url) => self.with_url(url),
                        Err(why) => self.end(Ending::Failed(why)),
                    }
                } else if self.stage == Stage::Committed {
                    self.committed = Git::read_lines(&ran);
                    let inv = git.status_porcelain();
                    self.stage = Stage::Uncommitted;
                    Request::Git(inv)
                } else {
                    let uncommitted = Git::read_lines(&ran);
                    let body = issue_body(
                        git.dir(),
                        self.remote.as_str(),
                        self.host.as_str(),
                        self.error_output.as_str(),
                        &self.committed,
                        &uncommitted,
                    );
                    let url = api_path(self.api_url.as_str(), self.slug.as_str(), "/issues");
                    let h = headers(self.token.as_str());
                    self.uncommitted = uncommitted;
                    self.stage = Stage::Post;
                    Request::Post { url, headers: h, title: title_text(), body }
                }
            },
            Answer::Env { gh_token, github_token } => match env_token(&gh_token, &github_token) {
                Some(token) => self.query(token),
                None => {
                    self.stage = Stage::CliToken;
                    Request::CliToken
                },
            },
            Answer::Cli(cli) => {
                let token = match cli {
                    Some((success, stdout)) => token_from_cli(success, stdout.as_str()),
                    None => None,
                };
                match token {
                    Some(token) => self.query(token),
                    None => self.end(
                        Ending::Failed(
                            owned("no GitHub token in GH_TOKEN, GITHUB_TOKEN or `gh auth token`"),
                        ),
                    ),
                }
            },
            Answer::Listed(listed) => match listed {
                Ok(titles) => {
                    let open = has_report(&titles);
                    if self.check_only {
                        self.end(Ending::Open(open))
                    } else if open {
                        let slug = owned(self.slug.as_str());
                        self.end(Ending::AlreadyOpen(slug))
                    } else {
                        self.stage = Stage::Host;
                        Request::Host
                    }
                },
                Err(why) => self.end(Ending::Failed(why)),
            },
            Answer::Host(h) => {
                self.host = h;
                let inv = git.unpushed();
                self.stage = Stage::Committed;
                Request::Git(inv)
            },
            Answer::Filed(filed) => match filed {
                Ok(()) => {
                    let slug = owned(self.slug.as_str());
                    self.end(Ending::Filed(slug))
                },
                Err(why) => self.end(Ending::Failed(why)),
            },
        }
    }
}

// ------------------------------------------------------------------------
// Laws of reporting
// ------------------------------------------------------------------------

/// While a report is open no further one is filed: a listing that holds one
/// ends the report without filing.
pub proof fn law_an_open_report_suppresses_the_next(p: ReportView, git: Git, a: Answer)
    requires
        p.accepts(a),
        p.stage == Stage::Query,
        !p.check_only,
        a matches Answer::Listed(Ok(titles)) && lists_report(titles.deep_view()),
    ensures
        p.advance(git, a).1 == RequestView::Done(EndingView::AlreadyOpen(p.slug)),
{
}

/// Closing the report re-arms reporting: a listing without one goes on to
/// file, and what is filed carries the report's title and the body of the
/// failure.
pub proof fn law_a_closed_report_rearms_filing(p: ReportView, git: Git, a: Answer)
    requires
        p.accepts(a),
        p.stage == Stage::Query,
        !p.check_only,
        a matches Answer::Listed(Ok(titles)) && !lists_report(titles.deep_view()),
    ensures
        p.advance(git, a).1 == RequestView::Host,
        p.advance(git, a).0.stage == Stage::Host,
{
}

/// What is filed is titled `Auto-sync failed`, goes to the repository's own
/// issues, and its body names the work tree, the remote and the error.
pub proof fn law_the_filed_issue_describes_the_failure(p: ReportView, git: Git, a: Answer)
    requires
        p.accepts(a),
        p.stage == Stage::Uncommitted,
    ensures
        p.advance(git, a).1 == (RequestView::Post {
            url: issues_url_of(p.api_url, p.slug),
            headers: headers_of(p.token),
            title: title(),
            body: body_of(
                git.dir_view(),
                p.remote,
                p.host,
                p.error_output,
                p.committed,
                nonempty_lines(stdout_of(ran_in(a))),
            ),
        }),
{
}

/// The token comes from the first source that has one: the fixed token, then
/// `GH_TOKEN`, then `GITHUB_TOKEN`, then `gh auth token`. The environment is
/// read only when no token is fixed, and the GitHub CLI is run only when the
/// environment has none; with no token anywhere the report fails for want of
/// one. Whatever is chosen is the token the open issues are listed with.
pub proof fn law_the_token_comes_from_the_first_source_that_has_one(
    p: ReportView,
    git: Git,
    url: Seq<char>,
    gh_token: Option<String>,
    github_token: Option<String>,
    cli: Option<(bool, String)>,
)
    requires
        slug_of(url) is Some,
    ensures
        ({
            let slug = slug_of(url)->0;
            let (q, r) = p.with_url(url);
            let env = env_token_of(gh_token.deep_view(), github_token.deep_view());
            let (q2, r2) = q.advance(git, Answer::Env { gh_token, github_token });
            let r3 = q2.advance(git, Answer::Cli(cli)).1;
            let chosen = token_chosen(
                p.fixed,
                gh_token.deep_view(),
                github_token.deep_view(),
                cli.deep_view(),
            );
            let listing = |t: Seq<char>|
                RequestView::Get { url: query_url_of(p.api_url, slug), headers: headers_of(t) };
            &&& p.fixed is Some ==> r == listing(chosen->0) && q.stage == Stage::Query
            &&& p.fixed is None ==> r == RequestView::EnvToken && q.stage == Stage::EnvToken
            &&& p.fixed is None && env is Some ==> r2 == listing(chosen->0) && q2.stage
                == Stage::Query
            &&& p.fixed is None && env is None ==> r2 == RequestView::CliToken && q2.stage
                == Stage::CliToken
            &&& p.fixed is None && env is None ==> r3 == match chosen {
                Some(t) => listing(t),
                None => RequestView::Done(EndingView::Failed(no_token())),
            }
        }),
{
}

/// How far a report is from its end.
pub open spec fn report_rank(p: ReportView) -> int {
    match p.stage {
        Stage::Start => 10,
        Stage::ConfiguredUrl => 9,
        Stage::GetUrl => 8,
        Stage::EnvToken => 7,
        Stage::CliToken => 6,
        Stage::Query => 5,
        Stage::Host => 4,
        Stage::Committed => 3,
        Stage::Uncommitted => 2,
        Stage::Post => 1,
        Stage::Done => 0,
    }
}

/// Every report ends: each answer moves it strictly closer to its end, and an
/// ended report asks for nothing more.
pub proof fn law_a_report_always_ends(p: ReportView, git: Git, a: Answer)
    requires
        p.accepts(a),
    ensures
        report_rank(p.advance(git, a).0) < report_rank(p),
        p.advance(git, a).1 is Done <==> p.advance(git, a).0.stage == Stage::Done,
{
}


// ------------------------------------------------------------------------
// Whole reports
// ------------------------------------------------------------------------

/// The states a report passes through and the requests it makes, answering
/// `answers` in turn from `p`, in work tree `git`.
pub open spec fn report_run(p: ReportView, git: Git, answers: Seq<Answer>) -> (
    Seq<ReportView>,
    Seq<RequestView>,
)
    decreases answers.len(),
{
    if answers.len() == 0 {
        (seq![p], seq![])
    } else {
        let (q, r) = p.advance(git, answers[0]);
        let (states, requests) = report_run(q, git, answers.drop_first());
        (seq![p] + states, seq![r] + requests)
    }
}

/// Each of `answers` is one the report was waiting for when it came.
pub open spec fn answered_in_turn(p: ReportView, git: Git, answers: Seq<Answer>) -> bool
    decreases answers.len(),
{
    answers.len() == 0 || (p.accepts(answers[0]) && answered_in_turn(
        p.advance(git, answers[0]).0,
        git,
        answers.drop_first(),
    ))
}

/// A check never goes past the listing: it has no host, body or issue.
pub open spec fn stays_a_check(s: ReportView) -> bool {
    s.check_only ==> !(s.stage == Stage::Host || s.stage == Stage::Committed || s.stage
        == Stage::Uncommitted || s.stage == Stage::Post)
}

proof fn lemma_report_run(p: ReportView, git: Git, answers: Seq<Answer>)
    requires
        answered_in_turn(p, git, answers),
    ensures
        ({
            let (states, requests) = report_run(p, git, answers);
            &&& states.len() == answers.len() + 1
            &&& requests.len() == answers.len()
            &&& states[0] == p
            &&& forall|i: int|
                0 <= i < answers.len() ==> #[trigger] states[i].accepts(answers[i]) && (
                states[i + 1],
                requests[i],
            ) == states[i].advance(git, answers[i])
            &&& forall|i: int| 0 <= i <= answers.len() ==> #[trigger] states[i].check_only
                == p.check_only
            &&& stays_a_check(p) ==> forall|i: int|
                0 <= i <= answers.len() ==> stays_a_check(#[trigger] states[i])
        }),
    decreases answers.len(),
{
    if answers.len() > 0 {
        assert(p.accepts(answers[0]));
        let q = p.advance(git, answers[0]).0;
        lemma_report_run(q, git, answers.drop_first());
        let (states, requests) = report_run(p, git, answers);
        let (s2, r2) = report_run(q, git, answers.drop_first());
        assert(states[1] == s2[0]);
        assert(requests[0] == p.advance(git, answers[0]).1);
        assert forall|i: int| 0 <= i < answers.len() implies #[trigger] states[i].accepts(
            answers[i],
        ) && (states[i + 1], requests[i]) == states[i].advance(git, answers[i]) by {
            if i > 0 {
                assert(states[i] == s2[i - 1]);
                assert(states[i + 1] == s2[i]);
                assert(requests[i] == r2[i - 1]);
                assert(answers[i] == answers.drop_first()[i - 1]);
                assert(s2[i - 1].accepts(answers.drop_first()[i - 1]));
            } else {
                assert(states[0] == p);
            }
        }
        assert forall|i: int| 0 <= i <= answers.len() implies #[trigger] states[i].check_only
            == p.check_only by {
            if i > 0 {
                assert(states[i] == s2[i - 1]);
            }
        }
        if stays_a_check(p) {
            assert(stays_a_check(q));
            assert forall|i: int| 0 <= i <= answers.len() implies stays_a_check(
                #[trigger] states[i],
            ) by {
                if i > 0 {
                    assert(states[i] == s2[i - 1]);
                }
            }
        }
    }
}

proof fn lemma_report_ranks_fall(p: ReportView, git: Git, answers: Seq<Answer>, i: int, j: int)
    requires
        answered_in_turn(p, git, answers),
        0 <= i < j <= answers.len(),
    ensures
        report_rank(report_run(p, git, answers).0[j]) < report_rank(
            report_run(p, git, answers).0[i],
        ),
    decreases j - i,
{
    lemma_report_run(p, git, answers);
    let states = report_run(p, git, answers).0;
    assert(states[j - 1].accepts(answers[j - 1]));
    law_a_report_always_ends(states[j - 1], git, answers[j - 1]);
    assert(report_rank(states[j]) < report_rank(states[j - 1]));
    if i < j - 1 {
        lemma_report_ranks_fall(p, git, answers, i, j - 1);
    }
}

/// A report files at most one issue, and none at all once its listing shows
/// a report still open: whatever the answers, as long as each is one the
/// report was waiting for.
pub proof fn law_a_report_files_at_most_once(p: ReportView, git: Git, answers: Seq<Answer>)
    requires
        answered_in_turn(p, git, answers),
    ensures
        ({
            let requests = report_run(p, git, answers).1;
            &&& forall|i: int, j: int|
                0 <= i < j < requests.len() ==> !(#[trigger] requests[i] is Post && #[trigger] requests[j] is Post)
            &&& forall|i: int, j: int|
                0 <= i < answers.len() && 0 <= j < requests.len() && (#[trigger] answers[i] matches Answer::Listed(
                    Ok(titles),
                ) && lists_report(titles.deep_view())) ==> !(#[trigger] requests[j] is Post)
        }),
{
    lemma_report_run(p, git, answers);
    let (states, requests) = report_run(p, git, answers);
    assert forall|i: int, j: int| 0 <= i < j < requests.len() implies !(
    #[trigger] requests[i] is Post && #[trigger] requests[j] is Post) by {
        if requests[i] is Post && requests[j] is Post {
            assert(states[i].accepts(answers[i]));
            assert(states[j].accepts(answers[j]));
            assert(states[i + 1].stage == Stage::Post);
            assert(states[j + 1].stage == Stage::Post);
            lemma_report_ranks_fall(p, git, answers, i + 1, j + 1);
        }
    }
    assert forall|i: int, j: int|
        0 <= i < answers.len() && 0 <= j < requests.len() && (#[trigger] answers[i] matches Answer::Listed(
            Ok(titles),
        ) && lists_report(titles.deep_view())) implies !(#[trigger] requests[j] is Post) by {
        assert(states[i].accepts(answers[i]));
        assert(states[i].stage == Stage::Query);
        assert(states[i + 1].stage == Stage::Done);
        if requests[j] is Post {
            assert(states[j].accepts(answers[j]));
            assert(states[j + 1].stage == Stage::Post);
            if j < i {
                lemma_report_ranks_fall(p, git, answers, j + 1, i);
            } else if j > i {
                if i + 1 < j {
                    lemma_report_ranks_fall(p, git, answers, i + 1, j);
                }
                assert(states[j].stage != Stage::Done);
            }
        }
    }
}

/// A check files nothing and ends only by answering whether a report is open
/// or by failing: it answers `true` or `false` only from a listing that went
/// through, saying whether that listing holds a report, and a listing that
/// failed fails the check.
pub proof fn law_a_check_answers_only_from_a_listing(p: ReportView, git: Git, answers: Seq<Answer>)
    requires
        p.check_only,
        p.stage == Stage::Start,
        answered_in_turn(p, git, answers),
    ensures
        ({
            let requests = report_run(p, git, answers).1;
            &&& forall|i: int| 0 <= i < requests.len() ==> !(#[trigger] requests[i] is Post) && !(
            requests[i] is Host)
            &&& forall|i: int|
                0 <= i < requests.len() && #[trigger] requests[i] is Done ==> requests[i]->Done_0 is Open
                    || requests[i]->Done_0 is Failed
            &&& forall|i: int|
                0 <= i < requests.len() && #[trigger] requests[i] is Done && requests[i]->Done_0 is Open
                    ==> answers[i] is Listed && answers[i]->Listed_0 is Ok
                    && requests[i]->Done_0->Open_0 == lists_report(
                    answers[i]->Listed_0->Ok_0.deep_view(),
                )
            &&& forall|i: int|
                0 <= i < answers.len() && #[trigger] answers[i] is Listed && answers[i]->Listed_0 is Err
                    ==> requests[i] == RequestView::Done(
                    EndingView::Failed(answers[i]->Listed_0->Err_0@),
                )
        }),
{
    lemma_report_run(p, git, answers);
    let (states, requests) = report_run(p, git, answers);
    assert forall|i: int| 0 <= i < requests.len() implies !(#[trigger] requests[i] is Post) && !(
    requests[i] is Host) by {
        assert(states[i].accepts(answers[i]));
        assert(states[i].check_only);
        assert(stays_a_check(states[i]));
    }
    assert forall|i: int|
        0 <= i < requests.len() && #[trigger] requests[i] is Done implies requests[i]->Done_0 is Open
            || requests[i]->Done_0 is Failed by {
        assert(states[i].accepts(answers[i]));
        assert(states[i].check_only);
        assert(stays_a_check(states[i]));
    }
    assert forall|i: int|
        0 <= i < requests.len() && #[trigger] requests[i] is Done && requests[i]->Done_0 is Open implies answers[i] is Listed
            && answers[i]->Listed_0 is Ok && requests[i]->Done_0->Open_0 == lists_report(
            answers[i]->Listed_0->Ok_0.deep_view(),
        ) by {
        assert(states[i].accepts(answers[i]));
        assert(states[i].check_only);
    }
    assert forall|i: int|
        0 <= i < answers.len() && #[trigger] answers[i] is Listed && answers[i]->Listed_0 is Err implies requests[i]
            == RequestView::Done(EndingView::Failed(answers[i]->Listed_0->Err_0@)) by {
        assert(states[i].accepts(answers[i]));
    }
}


/// The body's two lists come from the right commands, in order: once the host
/// is known the report runs `git log --oneline @{upstream}..HEAD` in the work
/// tree, then `git status --porcelain`, and the issue it files lists the
/// non-empty lines of the first as committed but not pushed and those of the
/// second as uncommitted.
pub proof fn law_the_body_lists_the_log_then_the_status(
    p: ReportView,
    git: Git,
    host: String,
    log: Ran,
    status: Ran,
)
    requires
        p.stage == Stage::Host,
    ensures
        ({
            let (q1, r1) = p.advance(git, Answer::Host(host));
            let (q2, r2) = q1.advance(git, Answer::Ran(log));
            let (q3, r3) = q2.advance(git, Answer::Ran(status));
            &&& r1 == RequestView::Git(
                argv_in(git.dir_view(), seq!["log"@, "--oneline"@, "@{upstream}..HEAD"@]),
                vars_with(git.env_view()),
            )
            &&& q1.stage == Stage::Committed
            &&& r2 == RequestView::Git(
                argv_in(git.dir_view(), seq!["status"@, "--porcelain"@]),
                vars_with(git.env_view()),
            )
            &&& q2.stage == Stage::Uncommitted
            &&& r3 == (RequestView::Post {
                url: issues_url_of(p.api_url, p.slug),
                headers: headers_of(p.token),
                title: title(),
                body: body_of(
                    git.dir_view(),
                    p.remote,
                    host@,
                    p.error_output,
                    nonempty_lines(stdout_of(log)),
                    nonempty_lines(stdout_of(status)),
                ),
            })
        }),
{
}

/// The environment's token is the first of `GH_TOKEN` and `GITHUB_TOKEN` that
/// holds something besides white space, trimmed: `GH_TOKEN` when it does,
/// else `GITHUB_TOKEN` when it does, whether `GH_TOKEN` is unset or blank;
/// none when neither does.
pub proof fn law_the_environment_tokens_in_order(g: Option<Seq<char>>, h: Option<Seq<char>>)
    ensures
        g is Some && trim(g->0).len() > 0 ==> env_token_of(g, h) == Some(trim(g->0)),
        (g is None || trim(g->0).len() == 0) && h is Some && trim(h->0).len() > 0 ==> env_token_of(
            g,
            h,
        ) == Some(trim(h->0)),
        (g is None || trim(g->0).len() == 0) && (h is None || trim(h->0).len() == 0)
            ==> env_token_of(g, h) is None,
        env_token_of(None, h) == env_token_of(Some(Seq::<char>::empty()), h),
{
    assert(trim(Seq::<char>::empty()).len() == 0) by {
        assert(trim_end(Seq::<char>::empty()) == Seq::<char>::empty());
    }
}

/// The GitHub CLI's answer gives a token only when it ran, succeeded, and
/// printed something besides white space, and then the token is that output
/// trimmed.
pub proof fn law_the_cli_gives_its_trimmed_output(success: bool, out: Seq<char>)
    ensures
        cli_token_of(None) is None,
        !success ==> cli_token_of(Some((success, out))) is None,
        success && trim(out).len() > 0 ==> cli_token_of(Some((success, out))) == Some(trim(out)),
        trim(out).len() == 0 ==> cli_token_of(Some((success, out))) is None,
{
}
} // verus!
