# rdmas

A key-value store on one-sided RDMA, verified with Verus. Clients read and write
a server's memory with READ, WRITE and CAS; the server's processor takes part in
the control plane only.

## Layout

- `src/engine`: bucket and extent layout, the Cuckoo table, the large object region,
  locks and leases, garbage collection, LRU, slabs.
- `src/client`: reads and writes of local and remote tables, batches, retries,
  sessions.
- `src/transport`, `src/rdma`, `src/mem`, `src/runtime`: frames, work requests,
  completions, registered memory and pollers, as decisions over plain values.
- `src/control`, `src/connector`: the control plane's state, tenants, replication,
  the native connector and the director's reports.
- `src/clock`, `src/hash`, `src/codec`, `src/text`: clocks, XXH64, little-endian
  bytes, decimal text.
- `app/`: sockets, devices, threads, gRPC and the Python class around the library.
- `tests/`: tests of the library.

## How it is stated

A type has a view, and an operation's contract equates the views before and after
with a transition of the model. What spans several operations is stated in public
proof functions whose names begin with `law_`. Work that needs the outside (a
remote operation, a system call, a device) is a state machine: the library says
what to do next, `app/` does it and hands back what came of it.

Outside functions are trusted in three places: `src/hash.rs` (`xxhash-rust`),
`src/engine/lru.rs` (`crossbeam`'s `SegQueue` and a sort of the standard library)
and `src/clock.rs` (the clocks of the standard library).
