//! The `git` commands the daemon runs, and what their output means.
//!
//! A `Git` names a work tree and the extra environment its commands run with.
//! Each of its queries is an `Invocation`: the arguments and environment of one
//! `git` process. Whoever runs it hands back a `Ran`, and the `read_*`
//! functions say what that answer means.
use vstd::prelude::*;

use crate::text::{
    nonempty_lines, nonempty_lines_of, owned, push_char, same, trim, trim_end, trim_end_str,
    trim_str,
};

verus! {

/// What a finished `git` process printed, and whether it exited successfully.
#[derive(Debug, Clone, PartialEq, Eq)]
pub struct Output {
    pub success: bool,
    pub stdout: String,
    pub stderr: String,
}

/// The answer to running an invocation: its output, or why it could not be run.
pub type Ran = Result<Output, String>;

/// The text of a failed command as it is reported: standard error above
/// standard output, each without trailing white space, the whole trimmed.
pub open spec fn message_of(stderr: Seq<char>, stdout: Seq<char>) -> Seq<char> {
    trim(trim_end(stderr) + seq!['\n'] + trim_end(stdout))
}

impl Output {
    /// The text of this output as it is reported.
    pub fn message(&self) -> (m: String)
        ensures
            m@ == message_of(self.stderr@, self.stdout@),
    {
        let mut combined = trim_end_str(self.stderr.as_str());
        push_char(&mut combined, '\n');
        let out = trim_end_str(self.stdout.as_str());
        combined.append(out.as_str());
        assert(combined@ =~= trim_end(self.stderr@) + seq!['\n'] + trim_end(self.stdout@));
        trim_str(combined.as_str())
    }
}

/// One `git` process: the arguments after the program name, and the
/// environment variables set for it, later ones overriding earlier ones.
#[derive(Debug, Clone, PartialEq, Eq)]
pub struct Invocation {
    pub args: Vec<String>,
    pub env: Vec<(String, String)>,
}

impl Invocation {
    /// The arguments as character sequences.
    pub open spec fn argv(&self) -> Seq<Seq<char>> {
        self.args.deep_view()
    }

    /// The environment as pairs of character sequences.
    pub open spec fn vars(&self) -> Seq<(Seq<char>, Seq<char>)> {
        self.env.deep_view()
    }
}

/// A work tree and the environment every command in it runs with.
pub struct Git {
    dir: String,
    env: Vec<(String, String)>,
}

/// The arguments that run `git` on `args` inside `dir`.
pub open spec fn argv_in(dir: Seq<char>, args: Seq<Seq<char>>) -> Seq<Seq<char>> {
    seq!["-C"@, dir] + args
}

/// The environment of every command: terminal prompts off, then `extra`.
pub open spec fn vars_with(extra: Seq<(Seq<char>, Seq<char>)>) -> Seq<(Seq<char>, Seq<char>)> {
    seq![("GIT_TERMINAL_PROMPT"@, "0"@)] + extra
}

/// Whether `ran` is a process that exited successfully.
pub open spec fn succeeded(ran: Ran) -> bool {
    ran matches Ok(out) && out.success
}

/// What a command printed, counted only when it succeeded.
pub open spec fn stdout_of(ran: Ran) -> Seq<char> {
    match ran {
        Ok(out) => if out.success {
            out.stdout@
        } else {
            seq![]
        },
        Err(_) => seq![],
    }
}

/// An answer that is a trimmed line of output, or the reason there is none:
/// why the command could not run, or what it said when it failed.
pub open spec fn trimmed_or_message(ran: Ran) -> Result<Seq<char>, Seq<char>> {
    match ran {
        Ok(out) => if out.success {
            Ok(trim(out.stdout@))
        } else {
            Err(message_of(out.stderr@, out.stdout@))
        },
        Err(e) => Err(e@),
    }
}

/// A `Result` of strings as a `Result` of character sequences.
pub open spec fn text_result(r: Result<String, String>) -> Result<Seq<char>, Seq<char>> {
    match r {
        Ok(s) => Ok(s@),
        Err(e) => Err(e@),
    }
}

/// The arguments of `git push`.
pub open spec fn push_args(remote: Seq<char>, branch: Seq<char>, set_upstream: bool) -> Seq<Seq<char>> {
    if set_upstream {
        seq!["push"@, "--set-upstream"@, remote, branch]
    } else {
        seq!["push"@, remote, branch]
    }
}

/// The URL from `git config --get`, when it succeeded and printed one.
pub open spec fn configured_url(ran: Ran) -> Option<Seq<char>> {
    if succeeded(ran) && trim(stdout_of(ran)).len() > 0 {
        Some(trim(stdout_of(ran)))
    } else {
        None
    }
}

fn args_of(parts: &[&str]) -> (v: Vec<String>)
    ensures
        v.deep_view() == parts@.map_values(|p: &str| p@),
{
    let mut v: Vec<String> = Vec::new();
    let mut i: usize = 0;
    while i < parts.len()
        invariant
            i <= parts.len(),
            v.deep_view() == parts@.take(i as int).map_values(|p: &str| p@),
        decreases parts.len() - i,
    {
        let ghost before = v.deep_view();
        v.push(owned(parts[i]));
        assert(v.deep_view() =~= before.push(parts@[i as int]@));
        assert(parts@.take(i + 1) =~= parts@.take(i as int).push(parts@[i as int]));
        assert(parts@.take(i + 1).map_values(|p: &str| p@) =~= parts@.take(i as int).map_values(
            |p: &str| p@,
        ).push(parts@[i as int]@));
        i = i + 1;
    }
    assert(parts@.take(parts.len() as int) =~= parts@);
    v
}

fn copy_text(s: &String) -> (r: String)
    ensures
        r@ == s@,
{
    owned(s.as_str())
}

impl Git {
    /// The work tree's path.
    pub closed spec fn dir_view(&self) -> Seq<char> {
        self.dir@
    }

    /// The extra environment, in the order it was added.
    pub closed spec fn env_view(&self) -> Seq<(Seq<char>, Seq<char>)> {
        self.env.deep_view()
    }

    /// The invocation that runs `git` with `args` in this work tree.
    pub open spec fn invocation(&self, args: Seq<Seq<char>>) -> (Seq<Seq<char>>, Seq<(Seq<char>, Seq<char>)>) {
        (argv_in(self.dir_view(), args), vars_with(self.env_view()))
    }

    /// A work tree at `dir`, with no extra environment.
    pub fn new(dir: String) -> (git: Git)
        ensures
            git.dir_view() == dir@,
            git.env_view() == Seq::<(Seq<char>, Seq<char>)>::empty(),
    {
        let git = Git { dir, env: Vec::new() };
        assert(git.env_view() =~= Seq::<(Seq<char>, Seq<char>)>::empty());
        git
    }

    /// The same work tree with `key` set to `value` for every command.
    pub fn with_env(self, key: String, value: String) -> (git: Git)
        ensures
            git.dir_view() == self.dir_view(),
            git.env_view() == self.env_view().push((key@, value@)),
    {
        let mut env = self.env;
        let ghost before = env.deep_view();
        env.push((key, value));
        let git = Git { dir: self.dir, env };
        assert(git.env_view() =~= before.push((key@, value@)));
        git
    }

    /// The work tree's path.
    pub fn dir(&self) -> (d: &str)
        ensures
            d@ == self.dir_view(),
    {
        self.dir.as_str()
    }

    /// The invocation of `git` with `args` in this work tree.
    pub fn run(&self, args: &[&str]) -> (inv: Invocation)
        ensures
            (inv.argv(), inv.vars()) == self.invocation(args@.map_values(|p: &str| p@)),
    {
        let tail = args_of(args);
        self.run_with(tail)
    }

    fn run_with(&self, tail: Vec<String>) -> (inv: Invocation)
        ensures
            (inv.argv(), inv.vars()) == self.invocation(tail.deep_view()),
    {
        let mut argv: Vec<String> = Vec::new();
        argv.push(owned("-C"));
        argv.push(copy_text(&self.dir));
        let mut i: usize = 0;
        assert(argv.deep_view() =~= argv_in(self.dir@, tail.deep_view().take(0)));
        while i < tail.len()
            invariant
                i <= tail.len(),
                argv.deep_view() == argv_in(self.dir@, tail.deep_view().take(i as int)),
            decreases tail.len() - i,
        {
            let ghost before = argv.deep_view();
            argv.push(copy_text(&tail[i]));
            assert(argv.deep_view() =~= before.push(tail.deep_view()[i as int]));
            assert(argv_in(self.dir@, tail.deep_view().take(i + 1)) =~= argv_in(
                self.dir@,
                tail.deep_view().take(i as int),
            ).push(tail.deep_view()[i as int]));
            i = i + 1;
        }
        assert(tail.deep_view().take(tail.len() as int) =~= tail.deep_view());
        let mut env: Vec<(String, String)> = Vec::new();
        env.push((owned("GIT_TERMINAL_PROMPT"), owned("0")));
        let mut k: usize = 0;
        assert(env.deep_view() =~= vars_with(self.env.deep_view().take(0)));
        while k < self.env.len()
            invariant
                k <= self.env.len(),
                env.deep_view() == vars_with(self.env.deep_view().take(k as int)),
            decreases self.env.len() - k,
        {
            let ghost before = env.deep_view();
            let key = copy_text(&self.env[k].0);
            let value = copy_text(&self.env[k].1);
            env.push((key, value));
            assert(env.deep_view() =~= before.push(self.env.deep_view()[k as int]));
            assert(vars_with(self.env.deep_view().take(k + 1)) =~= vars_with(
                self.env.deep_view().take(k as int),
            ).push(self.env.deep_view()[k as int]));
            k = k + 1;
        }
        assert(self.env.deep_view().take(self.env.len() as int) =~= self.env.deep_view());
        Invocation { args: argv, env }
    }

    /// `git rev-parse --is-inside-work-tree`.
    pub fn is_work_tree(&self) -> (inv: Invocation)
        ensures
            (inv.argv(), inv.vars()) == self.invocation(
                seq!["rev-parse"@, "--is-inside-work-tree"@],
            ),
    {
        let inv = self.run(&["rev-parse", "--is-inside-work-tree"]);
        assert(["rev-parse", "--is-inside-work-tree"]@.map_values(|p: &str| p@) =~= seq![
            "rev-parse"@,
            "--is-inside-work-tree"@,
        ]);
        inv
    }

    /// `git rev-parse --abbrev-ref HEAD`: the current branch.
    pub fn branch(&self) -> (inv: Invocation)
        ensures
            (inv.argv(), inv.vars()) == self.invocation(seq!["rev-parse"@, "--abbrev-ref"@, "HEAD"@]),
    {
        let inv = self.run(&["rev-parse", "--abbrev-ref", "HEAD"]);
        assert(["rev-parse", "--abbrev-ref", "HEAD"]@.map_values(|p: &str| p@) =~= seq![
            "rev-parse"@,
            "--abbrev-ref"@,
            "HEAD"@,
        ]);
        inv
    }

    /// `git rev-parse --abbrev-ref --symbolic-full-name @{upstream}`: it
    /// succeeds exactly when the branch has an upstream.
    pub fn has_upstream(&self) -> (inv: Invocation)
        ensures
            (inv.argv(), inv.vars()) == self.invocation(
                seq!["rev-parse"@, "--abbrev-ref"@, "--symbolic-full-name"@, "@{upstream}"@],
            ),
    {
        let inv = self.run(&["rev-parse", "--abbrev-ref", "--symbolic-full-name", "@{upstream}"]);
        assert(["rev-parse", "--abbrev-ref", "--symbolic-full-name", "@{upstream}"]@.map_values(
            |p: &str| p@,
        ) =~= seq!["rev-parse"@, "--abbrev-ref"@, "--symbolic-full-name"@, "@{upstream}"@]);
        inv
    }

    /// `git status --porcelain`: one line per changed path.
    pub fn status_porcelain(&self) -> (inv: Invocation)
        ensures
            (inv.argv(), inv.vars()) == self.invocation(seq!["status"@, "--porcelain"@]),
    {
        let inv = self.run(&["status", "--porcelain"]);
        assert(["status", "--porcelain"]@.map_values(|p: &str| p@) =~= seq![
            "status"@,
            "--porcelain"@,
        ]);
        inv
    }

    /// `git log --oneline @{upstream}..HEAD`: the commits not yet upstream.
    pub fn unpushed(&self) -> (inv: Invocation)
        ensures
            (inv.argv(), inv.vars()) == self.invocation(
                seq!["log"@, "--oneline"@, "@{upstream}..HEAD"@],
            ),
    {
        let inv = self.run(&["log", "--oneline", "@{upstream}..HEAD"]);
        assert(["log", "--oneline", "@{upstream}..HEAD"]@.map_values(|p: &str| p@) =~= seq![
            "log"@,
            "--oneline"@,
            "@{upstream}..HEAD"@,
        ]);
        inv
    }

    /// `git log --oneline HEAD..@{upstream}`: the upstream commits not yet here.
    pub fn behind(&self) -> (inv: Invocation)
        ensures
            (inv.argv(), inv.vars()) == self.invocation(
                seq!["log"@, "--oneline"@, "HEAD..@{upstream}"@],
            ),
    {
        let inv = self.run(&["log", "--oneline", "HEAD..@{upstream}"]);
        assert(["log", "--oneline", "HEAD..@{upstream}"]@.map_values(|p: &str| p@) =~= seq![
            "log"@,
            "--oneline"@,
            "HEAD..@{upstream}"@,
        ]);
        inv
    }

    /// `git diff --cached --name-only`: the staged paths.
    pub fn staged_files(&self) -> (inv: Invocation)
        ensures
            (inv.argv(), inv.vars()) == self.invocation(
                seq!["diff"@, "--cached"@, "--name-only"@],
            ),
    {
        let inv = self.run(&["diff", "--cached", "--name-only"]);
        assert(["diff", "--cached", "--name-only"]@.map_values(|p: &str| p@) =~= seq![
            "diff"@,
            "--cached"@,
            "--name-only"@,
        ]);
        inv
    }

    /// `git add -A`: stage everything.
    pub fn add_all(&self) -> (inv: Invocation)
        ensures
            (inv.argv(), inv.vars()) == self.invocation(seq!["add"@, "-A"@]),
    {
        let inv = self.run(&["add", "-A"]);
        assert(["add", "-A"]@.map_values(|p: &str| p@) =~= seq!["add"@, "-A"@]);
        inv
    }

    /// `git rebase --abort`.
    pub fn rebase_abort(&self) -> (inv: Invocation)
        ensures
            (inv.argv(), inv.vars()) == self.invocation(seq!["rebase"@, "--abort"@]),
    {
        let inv = self.run(&["rebase", "--abort"]);
        assert(["rebase", "--abort"]@.map_values(|p: &str| p@) =~= seq!["rebase"@, "--abort"@]);
        inv
    }

    /// `git commit -m <subject>`.
    pub fn commit(&self, subject: &str) -> (inv: Invocation)
        ensures
            (inv.argv(), inv.vars()) == self.invocation(seq!["commit"@, "-m"@, subject@]),
    {
        let mut tail: Vec<String> = Vec::new();
        tail.push(owned("commit"));
        tail.push(owned("-m"));
        tail.push(owned(subject));
        assert(tail.deep_view() =~= seq!["commit"@, "-m"@, subject@]);
        self.run_with(tail)
    }

    /// `git push [--set-upstream] <remote> <branch>`.
    pub fn push(&self, remote: &str, branch: &str, set_upstream: bool) -> (inv: Invocation)
        ensures
            (inv.argv(), inv.vars()) == self.invocation(push_args(remote@, branch@, set_upstream)),
    {
        let mut tail: Vec<String> = Vec::new();
        tail.push(owned("push"));
        if set_upstream {
            tail.push(owned("--set-upstream"));
        }
        tail.push(owned(remote));
        tail.push(owned(branch));
        assert(tail.deep_view() =~= push_args(remote@, branch@, set_upstream));
        self.run_with(tail)
    }

    /// `git fetch <remote>`.
    pub fn fetch(&self, remote: &str) -> (inv: Invocation)
        ensures
            (inv.argv(), inv.vars()) == self.invocation(seq!["fetch"@, remote@]),
    {
        let mut tail: Vec<String> = Vec::new();
        tail.push(owned("fetch"));
        tail.push(owned(remote));
        assert(tail.deep_view() =~= seq!["fetch"@, remote@]);
        self.run_with(tail)
    }

    /// `git pull --rebase --autostash <remote> <branch>`.
    pub fn pull_rebase(&self, remote: &str, branch: &str) -> (inv: Invocation)
        ensures
            (inv.argv(), inv.vars()) == self.invocation(
                seq!["pull"@, "--rebase"@, "--autostash"@, remote@, branch@],
            ),
    {
        let mut tail: Vec<String> = Vec::new();
        tail.push(owned("pull"));
        tail.push(owned("--rebase"));
        tail.push(owned("--autostash"));
        tail.push(owned(remote));
        tail.push(owned(branch));
        assert(tail.deep_view() =~= seq!["pull"@, "--rebase"@, "--autostash"@, remote@, branch@]);
        self.run_with(tail)
    }

    /// `git config --get remote.<remote>.url`: the URL as configured, before
    /// any `url.*.insteadOf` rewriting. `remote_get_url` is the fallback when
    /// this finds nothing.
    pub fn remote_url(&self, remote: &str) -> (inv: Invocation)
        ensures
            (inv.argv(), inv.vars()) == self.invocation(
                seq!["config"@, "--get"@, "remote."@ + remote@ + ".url"@],
            ),
    {
        let mut key = owned("remote.");
        key.append(remote);
        key.append(".url");
        let mut tail: Vec<String> = Vec::new();
        tail.push(owned("config"));
        tail.push(owned("--get"));
        tail.push(key);
        assert(tail.deep_view() =~= seq!["config"@, "--get"@, "remote."@ + remote@ + ".url"@]);
        self.run_with(tail)
    }

    /// `git remote get-url <remote>`.
    pub fn remote_get_url(&self, remote: &str) -> (inv: Invocation)
        ensures
            (inv.argv(), inv.vars()) == self.invocation(seq!["remote"@, "get-url"@, remote@]),
    {
        let mut tail: Vec<String> = Vec::new();
        tail.push(owned("remote"));
        tail.push(owned("get-url"));
        tail.push(owned(remote));
        assert(tail.deep_view() =~= seq!["remote"@, "get-url"@, remote@]);
        self.run_with(tail)
    }

    /// What a command printed, or nothing when it failed or could not run.
    pub fn read_stdout(ran: &Ran) -> (s: String)
        ensures
            s@ == stdout_of(*ran),
    {
        match ran {
            Ok(out) => if out.success {
                copy_text(&out.stdout)
            } else {
                String::new()
            },
            Err(_) => String::new(),
        }
    }

    /// The non-empty lines a command printed, or none when it failed.
    pub fn read_lines(ran: &Ran) -> (lines: Vec<String>)
        ensures
            lines.deep_view() == nonempty_lines(stdout_of(*ran)),
    {
        let out = Self::read_stdout(ran);
        nonempty_lines_of(out.as_str())
    }

    /// Whether `git rev-parse --is-inside-work-tree` said `true`.
    pub fn read_work_tree(ran: &Ran) -> (yes: bool)
        ensures
            yes == (trim(stdout_of(*ran)) == "true"@),
    {
        let out = Self::read_stdout(ran);
        let trimmed = trim_str(out.as_str());
        same(trimmed.as_str(), "true")
    }

    /// Whether the upstream query succeeded, which is whether there is an upstream.
    pub fn read_upstream(ran: &Ran) -> (yes: bool)
        ensures
            yes == succeeded(*ran),
    {
        match ran {
            Ok(out) => out.success,
            Err(_) => false,
        }
    }

    /// The trimmed output of a command that succeeded, or the reason it gave none.
    pub fn read_trimmed(ran: &Ran) -> (r: Result<String, String>)
        ensures
            text_result(r) == trimmed_or_message(*ran),
    {
        match ran {
            Ok(out) => if out.success {
                Ok(trim_str(out.stdout.as_str()))
            } else {
                Err(out.message())
            },
            Err(e) => Err(copy_text(e)),
        }
    }

    /// The branch name from `branch`, or why it could not be read.
    pub fn read_branch(ran: &Ran) -> (r: Result<String, String>)
        ensures
            text_result(r) == trimmed_or_message(*ran),
    {
        Self::read_trimmed(ran)
    }

    /// The configured URL from `remote_url`, when the command succeeded with
    /// something to say.
    pub fn read_configured_url(ran: &Ran) -> (url: Option<String>)
        ensures
            url.deep_view() == configured_url(*ran),
    {
        match ran {
            Ok(out) => if out.success {
                let t = trim_str(out.stdout.as_str());
                if t.as_str().is_empty() {
                    None
                } else {
                    Some(t)
                }
            } else {
                None
            },
            Err(_) => None,
        }
    }
}

} // verus!
