# async_runtime

A simple, single-threaded runtime for asynchronous Rust code, with its
decision-making parts verified by Verus.

- `src/` is the verified library:
  - `runtime::queue`: the bounded first-in first-out queue of ready tasks,
    with the count of unfinished spawned tasks and a closed state;
  - `runtime::executor`: the executor's step function (take the next task,
    park in the I/O driver, or leave once every spawned task has completed);
  - `runtime::context`: the set-once runtime context of a thread;
  - `runtime::io`: the table of registered I/O sources, their interest masks,
    delivered events and waiting tasks' wakers, and the delivery of a batch of
    polled events, which names the tasks to wake;
  - `net::tcp::listener`: the search for an address that a listener can bind.
- `app/` is the plumbing around it: the OS poller (`mio`), futures and wakers
  (`futures`), the thread-local context, the spawner and the TCP listener.
- `tests/` runs the library on concrete values.
