# maestro_core

The core of MaestroIDE, a desktop app for parallel work on git worktrees, each with its own
sessions: the sessions and their state machine, the single-writer rule, a gate in front of
commits, pushes and pull requests, the attention queue, escalations, line questions,
diffs, the blast radius of a change, prompt templates, task notes, and the background daemon
that watches GitHub and Jira.

The library decides and never acts. A call takes what was read (settings, stored rows, file
contents, the replies of `gh`) and answers with the new state and with what is to be done:
events to publish, calls of the agent engine, writes to the store, processes to run. Every
function carries a contract that Verus proves.

## Layout

- `src/` is the verified library.
  - `session/` holds the session state machine, its manager and the laws of the single
    writer; `agent/` the sidecar's protocol and supervisor.
  - `gate/` reads shell command lines, matches them against its rules and puts edited
    values back; `gate/splicing.rs`, `gate/editing.rs` and `gate/roundtrip.rs` prove that
    what a user typed into a gate is what the command then says, and `gate/wrapping.rs` that
    a command wrapped in another one, or standing beside one, is still seen.
  - `daemon/` polls GitHub and Jira, keeps the task queue and starts tasks.
  - `attention`, `escalation`, `questions`, `redteam`, `checks`, `diff`, `impact`, `notes`,
    `prompts`, `compose`, `pr`, `backup`, `config`, `health` and `launcher` are one feature
    each.
  - `text`, `clip`, `sorting`, `table`, `units` and `json` are what they share.
  - `outside`, `json` and `text` hold the few declarations that are trusted rather than
    proved: the clock, fresh identifiers, serde_json, and some of std's string functions.
- `tests/` runs the library on concrete values.
- `app/` is the program around it: processes, files, timers, the event channel, and the
  traits that a host implements (storage, worktrees, git).
