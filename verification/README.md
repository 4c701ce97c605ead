# mmo_server

The logic of a small UDP game-world server, verified with Verus.

- `src/definitions.rs`: channel, route and replication-condition codes.
- `src/wire.rs`: little-endian fields (through `byteorder`) and message helpers.
- `src/addr.rs`, `src/objects.rs`: peer addresses, clients, objects, cache keys.
- `src/model.rs`: the abstract server state and what each request does to it.
- `src/server.rs`: the registry server's state machine; it emits its datagrams
  and request records as effects for the caller to carry out.
- `src/world.rs`: the cache-backed front end: route decoding and the records
  and cache keys a request registers.
- `src/responder.rs`: the route/handler table and response recipients.
- `src/bench.rs`, `src/bench_client.rs`: the benchmark server and client logic.
- `src/laws.rs`: properties spanning several operations.
- `src/sources.rs`: the clock and the random generator.
- `app/`: sockets, the cache, argument handling and the serializable copies of
  the records.
