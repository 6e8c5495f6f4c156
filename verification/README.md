# dces

Core of a small distributed code-execution system, with proved contracts.
A primary node runs a WebAssembly program; every external call the program
makes is recorded in a replication log that member nodes follow, so that a
member can take over when the primary node is gone.

- `src/proto`: the binary wire protocol over byte buffers (big-endian
  integers, length-prefixed strings, byte strings and sequences), with the
  `ProtoType` and `ProtoAsProxy` layouts and their round-trip laws.
- `src/msg`: the messages between nodes and the values they carry.
- `src/replication_log.rs`: the log of recorded outcomes.
- `src/server.rs`, `src/client.rs`, `src/activity.rs`: the decisions of the
  primary node, of a member, and of the runner of external calls.
- `src/cli.rs`: host addresses and the meaning of the command line.
- `app/`: the program: sockets, threads, channels, the command-line parser
  and the WebAssembly runtime, driving the library.
