# ferrosync_core

The core of a file synchroniser that speaks the rsync protocol, written in
[Verus](https://github.com/verus-lang/verus): what it decides and what it puts
on the wire is stated in contracts and proved.

- `src/` is the library. It reads and writes nothing: it takes what was found
  (metadata, listings, received bytes) and gives back what is to be done (steps,
  bytes to send, events).
  - `protocol` — integers, indices and block heads on the wire
  - `filelist` — entries, their wire format, scanning, sorting, exchange
  - `filter` — patterns and rules
  - `fs` — metadata, steps, holes, attributes that stand for owners
  - `engine` — transfer decisions, sender and receiver loops, sessions,
    checkpoints, server arguments
- `app/` is the ordinary Rust around it: file systems, tasks, streams.
- `tests/` runs the library on chosen values, whole transfers over a file system
  in memory among them.

What is sent is proved to be read back: numbers, indices, entries, whole file
lists, requests, statistics, checkpoints and server arguments.
