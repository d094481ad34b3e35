# uring_runtime

A single-threaded runtime over io_uring. The library under `src/` is written in Verus and performs
no I/O: it decides which task is polled next, which completion belongs to which future, what is
asked of the kernel and what its answers mean. The program under `app/` makes the calls into
liburing, polls the futures and owns the sockets.

| module | contents |
| --- | --- |
| `task` | tasks and the counter of their identifiers |
| `executor` | the queue of due tasks, the futures, and the steps of a run |
| `ring` | registered requests, the steps of a wait, and the delivery of completions |
| `sqe` | requests, the state shared with a future, and what completions mean |
| `cqe` | completions and their flags |
| `opcodes` | operations as values |
| `tcp` | streams and listeners, and the steps of binding one |
| `session` | the steps of the client and of the server |
| `net`, `errno`, `abi`, `handle` | addresses, error numbers, and constants |

Operations that wait for the kernel are written as steps: a function takes what happened and says
what to do next. Where the kernel could answer in a way that an operation does not provide for, the
step requires that it did not, and a function beside it (`Executor::can_run`, `Ring::can_set_up`,
`Ring::can_wait`, `Ring::can_get_sqe`, `Prep::accepts`) tells.
