# mpmc_rust

A bounded multi-producer multi-consumer FIFO queue, verified with Verus.

- `src/buffer.rs`: `Inner`, the bounded FIFO buffer, with exact contracts over a
  `Seq` model and the laws of the model (first in first out, nothing lost or
  duplicated, a full buffer refuses, the capacity is never exceeded).
- `src/mutex_condvar.rs`: `MutexCondvarQueue`, the buffer behind a
  `std::sync::Mutex` with two `std::sync::Condvar`s for blocking `push` and `pop`.
- `src/lib.rs`: the `BoundedQueue` trait.
- `src/scenario.rs`: the throughput benchmark's plan and labels (labels name
  their counts uniquely), the values producers send (never the sentinel, disjoint
  per producer), the consumer's per-value step, the thread count, the scenario
  filter, and the reading of the duration.
- `app/main.rs`: the throughput benchmark program (threads, shared atomics, timing,
  output).
