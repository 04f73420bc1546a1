# DSH Launcher

A desktop launcher for `dsh web`, with its decisions verified by Verus.

- `src/` is the library. It decides: whether the settings are sound, which command runs dsh
  and where its executable is looked for, when a start has succeeded, failed or hangs, what a
  stop may end, how versions compare, which plugins are shown, what a downloaded file is
  called, what closing a window does. The contracts say what the functions return; where that
  rests on the operating system or on the clock, they say what holds whatever the answer is,
  and a function beside them takes the answer as an argument. The laws that hold across
  functions are public proof functions named `law_..`.
- `app/` is the application around it: processes, files, the network, the windows and the
  tray. It performs the actions that the library's step functions ask for and hands back what
  came of them.
- `tests/` runs the library on concrete values.

What the library takes on trust of the standard library and of `dirs` and `serde_json` stands
in `src/text.rs`, `src/paths.rs`, `src/util.rs` and `src/json.rs`, each with a comment on what
is claimed.

The life of the service is the core of the library. `src/state.rs` holds its state,
`src/service.rs` the transitions and the step functions that cause them, and
`src/lifecycle.rs` what holds over all that happens: what belongs to an earlier start changes
nothing, an external service is never ended, and no process is lost. There starts and stops come
in any order and interleave. What one start does itself comes in its own order, such as
registering its process before watching it, and the failure of a start or the end of a stop is
noted only where the state is still its own, which the application asks the library before.
