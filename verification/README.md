# lbsim

A packet-level simulator of a switch: ingress ports send configured flows,
packet by packet at line rate, to egress ports that buffer and drain them.
Flows are spread over egress ports either by a static hash of the flow or by
dynamic flowlet switching.

- `src/` is the library, verified with Verus: configuration checks
  (`config`), byte sizes and packet counts (`sizes`), flows and their hash
  (`flow`), egress port counters (`port`), the per-packet decisions of an
  ingress port (`schedule`), ingress addresses (`network`) and the final
  totals (`runner`). `chance` holds the random draws.
- `app/` is the program around it: command line, YAML, tokio tasks, timers,
  and the floating-point rate reports.
- `tests/` runs the library on concrete values.
