# helium

A topic library: sources of values ("topics") run once and are read by many
readers, each through its own cursor into a ring of recent values.

- `src/` is the verified library (Verus). It holds the rings and their
  cursors (`ring`, `storages`, `buffer`, `shared`), the registries of
  readers to wake (`registry`, `storages::manager`), the table of running
  topics (`manager`), the per-reader decisions of a poll (`token`,
  `stream`), the sharing of keys among flow groups (`multiplex`), the lock
  flag (`vlock`), the choice of key material in PEM text (`mtls`) and plain
  data types.
- `app/` is the runtime around it: handles shared behind locks, wakers,
  async streams over the library's decisions, the web route that lists
  topics, file reading and the wire form of the handshake frame.
- `tests/` exercises the library on concrete values.
