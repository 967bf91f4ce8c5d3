# wt

A small tool that automates the tedious parts of creating Git working trees:
`wt new <slug>` creates `<repo>-<slug>` beside the root worktree on a new
branch from `origin/<main>`, links configured files into it and runs the
configured commands there; `wt list` prints the slugs; `wt remove` removes
worktrees and their branches; `wt config init` writes a commented
`.wtconfig.toml`; `wt shell-init` prints a shell function that wraps
`wt new` so that it changes into the new worktree (with `-p`, it first opens
`$EDITOR` for a prompt and afterwards runs the assistant program named by
`$WT_ASSISTANT` on it there):

```bash
eval "$(command wt shell-init)"
```

Layout:

- `src/` — the library, verified with Verus: parsing of
  `git worktree list --porcelain`, main-branch detection, branch naming,
  the plans of the commands, progress and failure reports.
  `src/paths.rs` names the few `std::path` operations the logic relies on.
- `app/` — the program: command-line parsing, reading the configuration
  file, running git and the shell, the filesystem and the spinner.
- `tests/` — tests of the library.
