# git-bak

Backs up the persona files of an agent (`SOUL.md`, `AGENTS.md`, `memory/*.md` and the like) in a
git repository: every change of a watched file becomes a commit, commits are pushed now and then,
and a checkpoint squashes them onto a branch of their own. `git bisect` finds the change after
which a health check fails.

- `src/` is the library, verified with Verus. It decides; it does no input or output.
- `app/` is the program: it runs git, reads and writes files, waits for changes, and asks the
  library what to do.
- `tests/` runs the library.

## Commands

- `git-bak init [PATH]` makes a workspace: config file, `.gitignore`, watched files, repository.
- `git-bak run` watches the workspace and commits what changes.
- `git-bak hook EVENT` commits what changed, once. Events are `command:new`, `command:stop` and
  `command:reset`.
- `git-bak checkpoint` squashes the branch `raw` onto the branch `checkpoint`.
- `git-bak bisect GOOD BAD RUN` searches for the first commit with which the shell command `RUN`
  fails.
- `git-bak status` shows the settings, git's status, the newest commits and the lock.

## Paths

Paths are text with `/` between their components. A path that is no valid Unicode is taken with
replacement characters.
