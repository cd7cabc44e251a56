# tendr

The verified core of a supervisor for terminal sessions. A sidecar process runs a
command, records what its terminal shows, lets one client at a time control its input,
and leaves a record of how the run ended.

- `src/` is the library. Every function states what it does, and Verus proves it.
  - `model`: a run's record, its states and transitions, and who may write to its PTY.
  - `recording`: the format of recordings, byte for byte, its reader, and the text dump.
  - `recorder`: the sequencer, segment rotation and storage limits.
  - `pty_input`: the queue between clients and the PTY.
  - `attach_proto`, `attach_escape`, `attach_socket`: the attach protocol.
  - `sidecar`, `commands`, `reconcile`: what the processes decide.
- `app/` is the program around it: processes, files, sockets and threads.
- `tests/` runs the library.

Laws that relate several operations are public proof functions whose names start with
`law_`.
