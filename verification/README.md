# robot_farm

The decision logic of a server that runs coding agents (an orchestrator and
a pool of workers) over a shared git workspace, written in Verus with its
behaviour stated in `requires` / `ensures` contracts.

Layout:

- `src/` — the verified library.
  - `text.rs`, `split.rs`, `bytes.rs`, `paths.rs`, `idmap.rs`: text, byte and
    path helpers and an integer-keyed map, with their specifications.
  - `models.rs`: the data the rest speaks of (strategies, messages, model
    and reasoning overrides).
  - `shared/`: building agent and docker command lines, git argument lists
    and the parsers of git's porcelain status, numstat and diff output,
    worktree summaries, and where shell commands may run.
  - `system/`: in-memory stores (codex settings, strategy, feature toggles,
    docker overrides, staging hooks), system events and the queue
    coordinator that tracks worker assignments.
  - `threads/`: the queue manager's state machine, request batching, the
    prompts and messages sent to agents, how a child process ended and
    which turn its output carries, and the steps of the checks run after a
    turn with who is told how it went.
  - `routes/`: configuration paths and validation, request helpers and the
    task wizard's command and session state.
- `tests/`: tests of the library on concrete values.
- `app/`: the unverified shell around the library: git, docker and shell
  processes, the JSON configuration file, global stores, the batching
  loop, watching child processes and running post-turn checks.
