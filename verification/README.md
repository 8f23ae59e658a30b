# quaso

A Raft consensus layer and a replicated key-value store on top of it,
written in Verus.

- `src/` is the verified library: the log and RPC messages (`log`, `rpc`),
  the node state machine with its request handlers, heartbeat, election,
  commit and persistence decisions (`state`, `index_map`), configuration
  parsing (`config`), text helpers (`text`), the key-value commands and
  storage (`kv`), the command-line client's logic (`client`), the
  publish-subscribe messages (`pubsub`), and the laws proved over them
  (`laws`).
- `app/` is the unverified shell: TCP transport, bincode encoding, disk
  persistence, timers, the tokio tasks that drive a node, and the command
  lines of the servers and clients.
- `tests/` runs the library on concrete values.
