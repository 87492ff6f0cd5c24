# temper_desktop

The Rust core of temper-desktop, a Tauri app that makes temper a native
surface, written in Verus.

`src/` is the verified library:

- `text` — Unicode whitespace and trimming as `str::trim` has them, and
  decimal numerals.
- `resource_ref` — resource references (`<uuid>` or `slug-<uuid>`), their
  parser and the UUID text it reads and writes, with the round-trip laws.
- `temper` — the temper connection state and the resolution of references
  from the outcome of reading a resource.
- `stop_reason` — why an agent ended a turn, and the text the UI is told.
- `conversations` — the registry of live agent conversations keyed by
  conversation number, the conversation ids, and the decisions of starting,
  prompting and closing a conversation.
- `conversation_loop` — the conversation loop as a state machine, with the
  laws that every prompt goes into the session that was signalled ready.

`app/` is the Tauri shell: commands, the temper API client, agent
subprocesses and the async loop that performs what the state machine
decides.
