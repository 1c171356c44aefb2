# zincio

An asynchronous I/O runtime for one thread, with its logic verified by Verus.

- `src/` is the library. It decides: which timers a step of the clock expires, what a driver does
  with an event or a completion, how an operation goes on after an answer of the kernel, where a
  woken task is queued, which flags a file is opened with. Each function states in its contract what
  it returns and changes. The laws that relate several functions are public proof functions whose
  names begin with `law_`.
- `app/` is ordinary Rust around it: system calls, futures, the executor, and adapters for `tokio`,
  `hyper` and `quinn`. It performs what the library asks for and hands back what came of it.
- `tests/` runs the library on concrete values.

## Layout of the library

| Module | What it holds |
|---|---|
| `wheel`, `heap`, `timer` | the hierarchical timing wheel, the heap of its deadlines, and the timer on top |
| `time` | sleeps, intervals and timeouts |
| `driver` | registrations and completions, for `io_uring`, readiness events, completion ports, and a mock |
| `slots` | the slab that drivers and the wheel keep their records in |
| `op` | accepting, connecting, receiving, writing at an offset, waiting for a child process |
| `io` | buffers, copying, moving bytes within the kernel |
| `fs` | options for opening, paths, directories, exact reads and writes, metadata |
| `net` | trying addresses, setting up a listener, readiness of a UDP socket |
| `signal`, `process` | listeners for signals, and the reaper of child processes |
| `task`, `blocking`, `builder` | queues of tasks, the blocking pool, options of a runtime |
| `util` | what a ring must support, and an adapter that buffers reads and writes all |

Clocks are readings in nanoseconds, and errors are values of `error::Error`. Numbers of the system
(error codes, flags, signals, address families) are those of Linux, and those of Windows where a
name or a doc comment says so.

## What is taken on trust

The library calls `slab`, `smallvec`, `rustc-hash`, `libc` and a few functions of std through items
whose contracts Verus believes. Each has a doc comment that names the function and says what is
claimed of it: see `slots`, `driver`, `driver::uring`, `io::buf`, `fs::metadata` and `signal`.
