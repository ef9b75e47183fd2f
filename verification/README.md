# mpmc

A bounded multi-producer multi-consumer queue (Vyukov's ring of slots with
sequence numbers), written in Verus.

- `src/protocol.rs`: the sequence-number protocol: capacity rounding, the
  decision a producer or consumer takes after reading a slot, the step a
  round leads to, the sequence numbers it leaves behind, the decision of a
  blocking push or pop after a try, and the laws that tie them together.
- `src/ring.rs`: `SlotRing`, the same ring owned by one thread, with its
  invariant and a first-in-first-out law over any run of pushes and pops.
- `src/queue.rs`: `MpmcQueue`, the shared queue on atomics: one round of a
  push or a pop (`push_round`, `pop_round`), the non-blocking
  `try_push`/`try_pop` that repeat them, and the lock and two condition
  variables that blocking use waits on.
- `src/sync.rs`: the std locking primitives the queue calls, declared for Verus.
- `app/lib.rs`: the `BoundedQueue` trait, whose blocking `push` and `pop`
  take the lock and wait as `blocking_step` decides, for as long as they must.
