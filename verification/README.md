# chumby_supervisor

The decision logic of the chumby panel supervisor, verified with Verus.

- `src/policy.rs`: when to ask the player to restart (clock steps,
  NetworkManager connectivity recovering, chumby.com reachability changing),
  crash-restart backoff, and the chumby.com probe schedule.
- `src/supervisor.rs`: the main loop's decisions, as a state machine that
  takes events and answers with what to do.
- `src/args.rs`, `src/config.rs`, `src/route.rs`, `src/nm.rs`: the command
  line, the `access_chumby_com` switch, the default route from the routing
  table text, and NetworkManager's connectivity names.
- `src/laws.rs`, `src/history.rs`: properties that span several operations
  or whole histories of calls.
- `src/child.rs`, `src/probe.rs`: stopping the player's process group, and
  the probe's verdict on an HTTP answer.
- `app/`: the program around it: processes, signals, files, D-Bus, HTTP.

Instants are monotonic milliseconds. Intervals are milliseconds, except
the probe intervals (`PROBE_MIN_SECS`, `PROBE_MAX_SECS`, `pick`), which are
seconds.
