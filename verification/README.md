# git_helper

A git companion toolbox: contribution statistics, branch housekeeping with
a safety guard, stash and reset helpers, and batch operations over many
repositories.

- `src/` is the library, written and proved with Verus. It builds the git
  invocations, reads git's outputs, aggregates statistics, decides what is
  safe to run (the guard, and the `--dry-run` previews of branch cleanup,
  reset and batch gc), steps through a branch cleanup until it is done or
  a deletion fails, and formats every report. Its public functions state their
  results in `requires`/`ensures` contracts; the properties that relate
  several functions are public proof functions (`lemma_*`).
- `app/` is the `gh` command-line program around it: argument parsing,
  running git, files, threads and printing.
- `tests/` exercises the library on concrete values.

The project also had a desktop front-end. Its window and command
registration are not part of this crate; the decisions its commands make
(opening a repository, flagging branches, choosing a sync command or a
reset mode, checking a file selection, wording replies) stand as verified functions in `src/ui.rs`, and
its statistics call goes through `stats::engine::analyze_checked`.
