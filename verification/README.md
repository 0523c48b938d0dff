# tenex

The core of a terminal front-end that runs trees of coding agents in multiplexer
sessions, one git worktree per root agent. The logic is written in Verus and proved
against its contracts; the few calls into std and the `uuid` crate that Verus cannot
read (`String::push`, `Duration::from_millis`, random and textual uuids) stand behind
small trusted wrappers whose contracts are stated, not proved.

## Layout

- `src/` — the verified library.
  - `agent`, `data`, `state`: the stored agent tree (with its views as sequences of
    `AgentView`), the application data and the modes.
  - `actions`, `event`, `palette`: what each key-bound action and slash command does.
  - `git_ops`, `git_flows`: reading git's output and the push, pull-request, rebase,
    merge and rename flows, split into a decision before and after each command.
  - `merge_flow`, `rename_flow`: the merge in the main repository (stash, checkout,
    merge, put back) and the rename of a root agent (branch, worktree, session,
    remote) as state machines that name each command and take its result.
  - `window`, `lifecycle`, `sync`, `broadcast`, `swarm`, `synthesis`, `review_flow`:
    window bookkeeping, killing and respawning agents, spawning swarms and review
    agents, folding their work back, and driving `/review` in Codex panes.
  - `preview`: the preview, diff and commit panes and their unseen-change markers.
  - `text`, `ids`, `mux`: string handling, identifiers and multiplexer targets.
  - `laws`: properties that relate several functions, stated and proved.
- `tests/` — tests of the library on concrete values.
- `app/` — the unverified side: terminal events, running git and the pull-request
  tool, and the multiplexer behind a small trait; each flow asks the library what to
  do and hands back what happened. The sidebar's layout is passed to the library as a
  function from the data to its rows. `app/swarm.rs` makes the worktrees, sessions
  and windows of new roots, children, review agents, adopted worktrees and branch
  switches, and records each through the library.
