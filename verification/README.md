# reactor_experiments

Experiments with the concurrency architecture of a Tendermint seed node,
with the logic of each node verified by Verus.

- `src/` is the verified library.
  - `blocking/`: the single-threaded, blocking node. It holds the wire
    format of peer messages (a two-byte little-endian length delimiter, then a
    Protobuf `Any` message), the node's publish/subscribe registry, and the
    node's state and event handling.
  - `nonblocking/`: the single-threaded, non-blocking node. Its address
    book, dispatcher and routing table are state machines driven by events.
  - `multithreaded/`: the multi-threaded node. It holds the Tendermint
    core loop, the dispatcher's table of connected peers, and a gossiping
    address book.
  - `vec_map.rs` is a small map on a vector, with a `Map` view. `ip.rs` is an
    IP address held as an integer. `channel.rs` declares the crossbeam
    channel items that the logic uses.
- `tests/` runs the library on concrete values.
- `app/` is the program around the library: sockets, threads, tokio
  tasks, IPC channels, logging and the command line.

Run `app` with one of the subcommands `blocking`, `nonblocking`,
`multithreaded` or `gossip`.
