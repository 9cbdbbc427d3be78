# NetWatch

Network bandwidth monitoring in a master / agents layout, with alert rules,
per-machine quotas and a one-minute history. The decisions are a Verus
library under `src/`; `app/` holds the program around it.

- `src/config.rs`: configuration values and their defaults.
- `src/collector.rs`: per-interface rates from cumulative counters, process
  selection (most CPU-hungry first, at most 20, rates shared by CPU usage),
  the snapshot of a cycle and the bounded history.
- `src/alerts.rs`: the `Regle` trait, the rate, quota and suspicious-IP rules,
  the rules a configuration sets and their evaluation.
- `src/master.rs`: quota accounts, quota states, alerts of a cycle, the
  bounded alert log and agent status.
- `src/table.rs`: a table keyed by name, seen as a finite map.
- `src/texte.rs`: prefix, substring and loopback tests, decimal writing.
- `app/`: command line, HTTP and WebSocket servers, system readings,
  TOML/JSON documents and desktop notifications.

All figures are integers: rates in bytes per second, CPU usage in
thousandths of a percent, memory in bytes. The documents exchanged with the
dashboard keep the floating-point MB/s, percent and MiB figures.
