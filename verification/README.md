# xlm_ns

Verified core of the XLM name service.

- `src/table.rs`: a string-keyed table with distinct keys, seen as a finite `Map`.
- `src/record.rs`: resolution records and resolver errors.
- `src/resolver.rs`: the resolver contract's storage and operations, each
  stated as an exact step on `ResolverView`.  The registry is consulted
  through a closure, only where an operation reaches that point; whether a
  name is well formed is passed in.
- `src/laws.rs`: properties across operations (read-after-write, one-time
  initialization over any sequence of requests, refusals change nothing,
  only the holder changes a record, text records stay within the limit).
- `src/footprint.rs`: the storage entries each operation reads and writes,
  and the proof that running it on those entries alone and writing them
  back gives the same outcome.
- `src/policy.rs`: which contract ids each command accepts and needs.
- `src/availability.rs`: the availability of a name from its expiry.
- `src/signer.rs`: choosing a signer profile.

`app/` holds the Soroban contract that stores the resolver on chain and the
command-line tool's argument types, settings and read-only commands.
