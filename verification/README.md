# p2p_app

The logic of a peer-to-peer chat application (libp2p gossip and direct
messages, a terminal UI, a mobile API and a desktop front end), written as a
Verus library whose functions carry `requires` / `ensures` contracts proved by
Verus.

Layout:

- `src/` — the verified library: text helpers over `Seq<char>`, a string-keyed
  map with a `Map` view, message formatting, network-size rules, nickname
  rules, group identities and signed group-control framing, the TUI state
  reducers and input handling (tab cycling, pane scrolling by key and
  wheel, mouse clicks, sorting, the chat loop's key, click and message
  steps, sending to the chat, a peer or a group),
  the mobile node's event queue and JSON events, peer sorting, the log
  buffer, swarm message routing, database-number and lock-file rules, and
  the desktop chat state machine. Calls into outside crates (chrono, petname,
  ed25519-dalek, libp2p-identity) sit behind small trusted wrappers whose doc
  comments say what is assumed of them.
- `tests/` — executable tests run against the compiled library.
- `app/` — the unverified glue: global state, channels, the log file, the
  database URL slot, serde wire copies of library types, and float-based clock
  formatting.
