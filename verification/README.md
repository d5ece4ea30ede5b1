# Aether

The logic of a distributed key-value store, verified with Verus.

- `src/` is the library: byte, text and JSON encodings, the lock, barrier, election and
  queue registries, leases, users, roles and tokens, the services that clients
  call, cluster membership, discovery and alarms, the gateway, and the benchmark.
  A service takes a request and says what is proposed to the state machine or read
  from storage; given the answer, it says what the client is told. Services that
  wait are state machines: an event leads to the next step.
- `app/` is the program around it: servers, files, timers, and the
  traits that consensus, storage and watches are reached by.
- `tests/` runs the library with the real outside crates.

Statements about what clients may rely on stand in `src/` as public proof
functions next to what they speak of.
