# hexafreeze

Snowflake IDs: 64-bit identifiers made of a 41-bit millisecond timestamp (counted from a
chosen epoch), a 10-bit node id and a 12-bit sequence number. The sequence number comes from
a per-generator counter taken modulo 4096; it is not reset every millisecond.

Layout:

* `src/` — the verified library (Verus).
  * `constants.rs` — the bit layout and limits.
  * `error.rs` — the errors.
  * `generator/nano.rs` — nanosecond and millisecond counts and their conversions.
  * `generator/snowflake.rs` — packing the three fields into an `i64`, with the laws that
    the fields can be read back and that snowflakes are injective and ordered by time.
  * `generator/checks.rs` — node id and epoch checks.
  * `generator/util.rs` — reading the system clock.
  * `generator/mod.rs` — the generator's state, its model, the choice of a sequence
    number at a clock reading, and the id built from it.
  * `generator/trace.rs` — runs of calls: a call whose slot was already used in the same
    millisecond waits until the clock reads two milliseconds later; with that, and while
    the clock never goes back, ids are pairwise distinct and their timestamps never go
    back. Sequence numbers (and the ids' low 12 bits) follow the counter.
  * `generator/laws.rs` — further laws: the errors a call can give, agreement of the epoch
    check with id stamping, distinct nodes give distinct ids, millisecond round trips.
* `app/` — the asynchronous, shareable `Generator` (tokio), taking `chrono` epochs, with a
  `thiserror` error type; it holds the lock and sleeps where the library says to wait.
* `tests/` — tests of the library.
