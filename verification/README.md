# ractor_shell

An interactive shell for inspecting and driving actor systems built on `ractor`
and `ractor_cluster`: it lists and pings actors, sends and calls messages (raw
bytes, JSON or a typed `Variant(args)` form), follows trace events and
supervision events, and connects to remote nodes of a cluster.

## Layout

- `src/` is the library, written in Verus. Every function there carries a
  contract that Verus proves: command parsing and alias resolution, tab
  completion and ranking, configuration defaults, the bounded event buffers,
  trace filters and level ordering, the state of the introspection actor
  (subscriptions, monitoring), the shell's session state, cluster views,
  message routing, the schema text of a message type and the wire records.
  Calls into outside crates (`chrono`, `colored`, `hostname`, `ractor`, `serde_json`)
  stand behind small trusted wrappers whose doc comments say what is assumed.
  The public proof functions (`lemma_*`) state laws that span several
  functions, such as "unsubscribing undoes subscribing".
- `app/` is the program around the library: argument handling, the
  `rustyline` editor, actors, network connections, file I/O and printing.
- `tests/` exercise the library on concrete values.
