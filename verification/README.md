# kipc

The operations that a small message-passing kernel offers its tasks by way of
messages to the kernel itself: task status, restart, fault injection, the image
identity, reset, dumps, software interrupts, and the search for faulted tasks.
Written and proved in Verus.

- `src/kipc.rs`: the dispatcher and the operations. Each has a spec function, named
  like it with `_post` at the end, that says what it does.
- `src/task.rs`, `src/abi.rs`, `src/umem.rs`: tasks, what the kernel and its tasks
  say to each other, and the memory of tasks.
- `src/marshal.rs`: scalars as bytes. The functions marked `external_body` call
  `ssmarshal`; their contracts are the only ones that are believed and not proved.
- `src/wire.rs`: requests and responses as sequences of scalars.
- `src/laws.rs`, `src/wire_laws.rs`: what holds of the operations and of the bytes
  as a whole.
- `src/diag.rs`: the numbers that go over the diagnostic port.
- `app/`: the side of the machine: memory access, interrupts, reset, the copy
  between tasks, and the critical section around a status request.
