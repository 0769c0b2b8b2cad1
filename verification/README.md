# heap-oracle

A monitor for the heap of a running program. A preloaded hook writes every
`malloc`, `free`, `realloc`, `calloc` and `memalign` into a ring in shared memory;
the monitor reads the ring, keeps the state of every chunk, mirrors the allocator's
thread cache and fast bins, and flags double frees, invalid frees and reallocations
of freed memory.

- `src/` is the library, verified with Verus.
  - `state` is the oracle; `model` is its mathematical model, and every operation of
    the oracle is proved equal to a step of that model.
  - `laws` holds what the oracle promises, proved of the model.
  - `ipc` is the event format and the arithmetic of the ring.
  - `report` and `panel` are the text of the terminal and of the window; `listing`
    puts the records in order, `text` formats numbers, and `plain` proves that colours
    add control sequences to the output and change nothing else.
  - `runtime` holds the counters and the decisions of the reader and of the wait for
    the last events; `cli` reads the command line and prepares the target.
- `app/` is the program around it: shared memory, threads, processes, the window.
- `tests/` runs the library on concrete values.
