# gfresh

Brings a git work tree up to date with its main branch: checks the repository
and `origin`, refuses to touch local changes unless `--force` is given (then
hard-resets), finds the main branch (origin's default branch, else the first of
`main`, `develop`, `master` that exists locally or on origin), switches to it,
fetches with pruning, rebases when behind, deletes local branches whose upstream
is gone, and shows the last commits.

Layout:

- `src/` — the verified library (Verus):
  - `text.rs`: whitespace, trimming, lines, words, substrings, decimal numbers,
    with specifications over character sequences;
  - `cli.rs`: argument parsing;
  - `git.rs`: the git commands, and what is read from their output;
  - `flow.rs`: the course of a refresh as a state machine, and its laws;
  - `ui.rs`: message colours.
- `app/main.rs` — the program: runs git, prints, and drives the state machine.
- `tests/` — tests of the library.
