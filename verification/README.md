# grove

A terminal UI for git repositories and their worktrees: a sidebar of
repositories and worktrees with status and pull-request badges, embedded
shells per worktree, and a diff view.

## Layout

- `src/` is the library, verified with Verus. It holds the program's
  logic: the application state and its update function (`app`,
  `dispatch`, `dialogs`, `flows`, `repos`, `reconcile`), key routing and
  the key-to-PTY encoding (`keys`), the configuration and persisted state
  (`config`, `state`, `session`, `startup`), git output interpretation, worktree
  listing, the merged-branch verdict and diff assembly (`git`, `commands`), GitHub status folding (`github`),
  background activity bookkeeping (`activity`), text input, path
  completion and message wrapping (`text_input`, `pathinput`, `wrap`), and
  the text every view draws (`view`, `diffview`, `scanview`).
- `app/` is the binary around it: terminal and PTY handling, the git,
  GitHub and file-system calls, the event loop, mouse routing, and drawing
  with ratatui (dialog layouts come from the library). It hands
  the library plain values and performs the effects the library returns.
- `tests/` exercises the library from outside.

Laws that span several operations are stated and proved as public proof
functions named `law_*`.
