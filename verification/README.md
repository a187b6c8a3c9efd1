# wyrtloom-clientauth-tofu

Trust-on-first-use (TOFU) authentication of client applications with ed25519 keys,
verified with Verus.

- `src/` is the library. It makes every decision of the scheme and proves them against
  their contracts; what holds over whole histories of operations is in `src/history.rs`.
- `tests/` runs the library on concrete values.
- `app/` puts the scheme on a document store and the system clock, for use from many
  threads.

The library does not talk to the store itself. An operation hands out what to fetch or
write and goes on with the reply, so that enrolling a client is a walk through
`Enrollment`, `FirstContact`, `Redemption` and `Pinning`. An enrollment has to run from
its first lookup to its last write without another in between; `app/` holds a lock for
that.

Canonical requests start with the tag `wyrtloom-client-auth-v1`. Every field after it
stands behind a four-byte big-endian length.

What is taken on trust of other crates is in `src/crypto.rs`: SHA-256, constant-time
comparison, ed25519 and random bytes. Of the standard library, `str::trim` and
`String::push` are, in `src/text.rs` and `src/hex.rs`.
