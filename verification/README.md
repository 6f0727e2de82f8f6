# kirv

A CPU throttle for process groups on macOS. `kirv <pid> <percentage>` finds the process
group of `<pid>` and keeps its CPU usage, summed over its processes as `ps` and `top` give
it, near `<percentage>` (1 to 99) by stopping the group for part of each period.

## Layout

- `src/` is the library, written in Verus. It decides: what the command line asks for,
  whether a process may be controlled, what an observation means, when an estimate can be
  relied on, which part of the control law applies, what is signalled in which order, and
  how the program ends. Each function states its result in its contract; the `law_`
  functions state what holds across functions and over whole runs.
- `app/` is the program. It reads the clock and the process table, samples CPU usage,
  sleeps, prints, and does the floating-point arithmetic.
- `tests/` runs the library on concrete values.

CPU quantities are a type parameter of the library: it carries them and hands them to the
program's arithmetic, and never looks inside.

Two parts of the library are state machines: `Enforcement` applies one decision, and
`ControlLoop` goes from period to period. The program performs each action that they ask
for and answers with what came of it. A stopped group is always on record in the shared
state before the stop signal is sent and until the group runs again, so that whatever ends
the program can resume it.
