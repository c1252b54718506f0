# envelope_flags

The flags cache of a mail synchronizer and the decisions around it, verified with Verus.

- `src/` is the library. `manager` holds the cache of flags hashes, `state` its mathematical
  model and `laws` what holds of it. `modify` and `update` take a change of flags through the
  mail stores into the cache, `sweep` orders the cleaning of the stores, `flags` says how flag
  lists are changed and compared. `tick`, `watchdog` and `tasks` decide about the periodic
  account sync, `pool` about pooled IMAP connections.
- `store`, `uid_map` and `tasks` state what is relied on of `dashmap` and `ahash`. Nothing else
  is taken on trust.
- `app/` drives the library: it reads and writes the stores, runs the sync tasks under their
  watchdog, and manages the connection pool.
- `tests/` runs the library on concrete values.
