# perch

Walking between the branches and worktrees of a git repository: `perch
<branch>` goes to a branch wherever it lives, `perch br` checks it out here, and
`perch wt` gives it a worktree of its own. The two removing commands, `br rm`
and `wt rm`, and the cleanup prompt after a switch show what would be lost
before anything is.

## Layout

- `src/` is the library, and every decision the program makes. It is written in
  Verus: what each function does is stated in its contract and proved.
  - `talk.rs` and `ask.rs`: how the library is run. A function that needs git, a
    terminal or the file system says what it wants through a `Talk`, and is
    called again with the reply. Its contract says, for every row of replies,
    what it asks for next or what it ends in.
  - `grammar.rs`: what the words of a command line ask for.
  - `git.rs` and `git/`: git's command lines, what its output means, and the
    judgements made on it: which branches are stale, which of them hold work of
    their own, and how a branch is deleted without losing any.
  - `app.rs` and `app/`: the commands.
    - `verbs.rs`, `wt.rs`, `br.rs`: the three verbs.
    - `update.rs`, `prefetch.rs`: bringing branches up to their remotes.
    - `removal.rs` and `removal/`: what is offered for removal, what is chosen
      of it, and what becomes of it. `removal/license.rs` states what may be
      destroyed, and in which order; `removal/harmless.rs` that assessing
      destroys nothing; `removal/grounds.rs` that a row says why a branch is
      offered, and that this licenses nothing.
    - `picker.rs`: what a key does to a list that is picked from or ticked.
    - `reclamation.rs`: deleting removed worktrees in the background.
    - `silence.rs`: what is never written to standard output, and what staying
      put leaves as it is.
    - `catalogue.rs`, `prompts.rs`, `reports.rs`, `signs.rs`, `quoting.rs`,
      `hook.rs`.
  - `text.rs`, `path.rs`, `rows.rs`, `table.rs`, `model.rs`, `error.rs`: what the
    rest is made of.
- `app/` is the program around the library: it runs git and the hooks, draws on
  the terminal, and takes locks. What is asked for is decided in the library.
- `tests/` runs the library against scripted repositories.

## What is trusted

Three functions outside the library are taken at their word: `String::push`,
`String::from_utf8` and `console::measure_text_width`. Everything else that the
contracts state is proved, for every answer that git, the user or the file
system may give.
