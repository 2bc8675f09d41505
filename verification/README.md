# yuki

The verified core of a compact-block-filter Bitcoin light client node.

- `src/block_queue.rs`: the queue of block and filter downloads still to be
  handed to peers, with `src/queue_laws.rs` for what holds across its
  operations (filters first, consecutive filter runs, blocks in order,
  nothing lost, idempotent adds and removals).
- `src/counter.rs`: per-peer message accounting against unsolicited
  messages, and the response timer.
- `src/config.rs`, `src/builder.rs`: the node configuration and its builder.
- `src/channel_messages.rs`: values exchanged with peer connections.
- `src/outside.rs`: the types of `bitcoin`, `tokio` and `std` that the
  library carries, and its few calls into them.
- `app/`: file-system work, process exit and conversions to and from the
  network types of `std` and `bitcoin`.
