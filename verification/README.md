# shanti

shanti keeps the git worktrees and jj workspaces of many repositories in one
list: pick one to change into, create one for a branch or a pull request, delete
one without losing work.

`src/` is the library: what the program decides and shows, with contracts that
Verus checks. It neither reads nor writes. What it needs to know of the disk, of
git, of GitHub and of the terminal it takes as plain values, and what it wants
done it hands back as plain values.

- `app` is the state machine: keys, finished jobs, answers and the clock go in,
  the next state comes out. `app/laws.rs` states what holds across all of it.
- `components` holds the panes and popups: what each makes of a key, and what it
  looks like.
- `jobs` is the pool slow work is handed to, and the record of whose answer is
  still wanted.
- `cli`, `config`, `dirs`, `hooks`, `space_meta`, `theme` are settings.
- `git` and `github` are the decisions around libgit2, `git clone` and the API.
- `fuzzy`, `order`, `screen`, `text`, `keymap`, `events`, `vcs` are shared.

`app/` is the program around it: the terminal, the threads, the files, libgit2,
`gh`. `tests/` runs the library.

Where the library calls another crate, the call stands in a small function whose
contract is believed rather than proved, and whose comment says what is claimed:
the widths and the layout of `ratatui`, the scores of `nucleo-matcher`, the
reading of JSON by `serde_json`, and a few functions of the standard library.
