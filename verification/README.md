# llm3d_host

The desktop host of LLM3dEngine starts a Godot-based engine as a child
process, talks to it over a local IPC link, lays its window over the preview
panel, streams answers from a chat-completion API, and manages TypeScript game
projects.

- `src/` is the verified core (Verus): the engine session and its
  transitions, the command messages and their session stamping, the handling
  of messages from the engine, the overlay state, the answer-stream decoder,
  project layout and type-checker output, and the JSON and text models these
  are specified over.
- `app/` is the Tauri host around it: processes, sockets, files, HTTP, native
  window geometry, and the conversions between `serde_json` values and the
  core's JSON model.
- `tests/` exercises the core on concrete values.

Notes on the host:

- Tauri (and its shell plugin) is what `app/` is written against, but it is
  not among the crate's dependencies: with it the dependency lock grows past
  what this build accepts, and its build needs the system WebKit/GTK
  libraries and a `tauri.conf.json`. `app/` therefore does not compile here.
- The engine's TypeScript declarations (`engine-core.d.ts`) are read from
  `modules/quickjs_scripting/` when a project is created, so creating a
  project fails with "Failed to read engine-core.d.ts: ..." when they are
  missing.
- One mutex guards the engine record. A message that arrives while that lock
  is poisoned is still handled, with the record as it was left.
