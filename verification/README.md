# easy_worktree

`wt`, a command for managing Git worktrees, with its logic verified by Verus.

- `src/` is the verified library: argument parsing, configuration trees and their
  merging, the worktree metadata records, parsing of `git` and `gh` output, the
  list table, the clean filter, the `wt add` state machine, the selection menu,
  hook templates and environments, and the text of every message. Each public
  function states its result in `requires` / `ensures`; the laws that relate
  several functions are public proof functions (`lemma_*`).
- `app/` runs the command: it reads files and the environment, starts `git`,
  `gh`, `fzf` and hooks, and hands their output to the library.
- `tests/` runs the library on concrete inputs.
