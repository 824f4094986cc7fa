# gim

A terminal UI for managing git branches: move through the local branches, delete,
rename, check out and create them, and merge or rebase one branch into another,
stopping on conflicts with the choice to continue, resolve in an editor, or abort.

## Layout

- `src/` — the library, verified with Verus:
  - `config.rs`: keys, key bindings and their names (`KeySpec::parse`, `KeySpec::to_text`),
    the default bindings and options;
  - `input.rs`: the single-line editor of the rename / new-branch prompt;
  - `git.rs`: branches, the calls the library asks the binary to make in the repository
    (`GitCall`) and the answers (`Reply`), the branch-list parser and the record kept
    while a merge / rebase runs;
  - `ops.rs`: starting, continuing and aborting a merge / rebase, as machines that ask for
    one git call at a time;
  - `app.rs`: the application state machine: key presses and git answers in, git calls out;
  - `ui.rs`: the texts on the screen;
  - `text.rs`: character-level helpers.
- `app/` — the binary: command line, config file (TOML), running git, drawing with ratatui.
- `tests/` — tests of the library, with an in-memory repository.

The laws that the library proves are the `law_*` proof functions in the modules above. Among
them, `ops.rs` states in `answers` what the procedures rely on of git (what `HeadRef` and
`LoadPending` report, what a checkout and the record calls change) and proves that a merge /
rebase, and continuing or aborting one, ends on the branch it started from (with the record
removed and any autostash popped), and that with git answering successfully continuing and
aborting finish.
