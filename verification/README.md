# boswell

A daemon that watches git repositories and commits and pushes what changes in
them, so the work of an agent editing files publishes itself. A push that
cannot land is retried with exponential backoff and, when it still fails or
needs a person, reported as an `Auto-sync failed` issue on the repository's
GitHub origin; while that issue is open no further one is filed.

## Layout

- `src/` is the library, written in Verus. Every decision the daemon makes
  lives here with its contract:
  - `subject`: the commit subject for the staged files.
  - `git`: the `git` invocations, and what their output means.
  - `sync`: a sync pass as a state machine (commit, fetch, rebase, push, back
    off), with its laws: the backoff doubles up to its cap, a failure is
    reported exactly when the pass fails, a failed rebase is aborted, every
    pass ends.
  - `issue`: GitHub slugs, tokens, the issue body, and filing a report as a
    state machine, with its laws: an open report suppresses the next, a closed
    one re-arms filing.
  - `daemon`: which file events count, and the watch loop's timing as a state
    machine: debouncing, the fetch interval, rechecks, pausing after a
    conflict until the report is closed.
  - `config`: the configuration, its defaults, `~` expansion and its checks.
  - `text`: trimming, line splitting, searching and joining over characters.
- `app/` is the program around it: the command line, reading the TOML file,
  running `git`, sleeping, the file watcher, and the GitHub API.
- `tests/` exercises the library on concrete values.
