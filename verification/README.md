# rusty-autossh

Keeps an SSH tunnel alive: spawns `ssh` as a child, optionally checks the
tunnel with a heartbeat over a monitor-port pair, and respawns the child when
it dies, stops answering, or is asked to restart by a signal.

## Layout

- `src/` is the library, written in Verus and verified. It holds every
  decision of the supervisor, each with a contract over a mathematical model:
  - `cli` and `strict`: the Default-mode argv splitter and the upstream
    compatible Strict-mode parser, with the `-M` value grammar;
  - `mode`: which compatibility mode a command line selects;
  - `clock`: the poll clock resolved from `AUTOSSH_*` variables and flags;
  - `monitor`: the heartbeat wire format, the check of the echoed copy,
    and the plan of listeners to bind;
  - `spawner`: monitor-port forward injection and ssh binary selection;
  - `daemonizer`: the command line of the detached copy in Windows
    background mode;
  - `supervisor`: the respawn state machine, as a transition function from
    state and event to next state and operation, with its laws: the
    child-liveness flag agrees with the step in progress, and over any run
    the `ChildSpawned` / `ChildExited` notices alternate (the end of every
    child is announced before its replacement is spawned); the retry cap
    over a whole run; gatetime accounting; signal handling; the lifetime
    cap;
  - `text`: small string and number helpers.
- `app/` is the program around it: argument parsing with clap, process
  spawning and reaping, sockets, signals, files, daemonization, and the
  driver loop that performs each operation the state machine asks for.
- `tests/` runs the library on concrete inputs.
