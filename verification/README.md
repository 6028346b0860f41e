# rust_lt

The verified core of a load-testing engine, written in Verus.

- `src/` is the library. Each module states its behaviour in `requires` /
  `ensures` contracts over mathematical models (`Seq`, `Map`, spec
  functions), and Verus proves the code against them:
  sessions and template rendering (`session`), scenario steps and their
  execution decisions (`scenario`, `action`), users' runs and the run totals
  (`vu`, `runner`), injection schedules (`injector`), data feeders and the CSV
  and JSON formats (`feeders`, `json_feed`), protocol messages (`protocols`),
  the dashboard's request reading, SQL texts and response framing
  (`dashboard`), the request log's segment files (`segments`), the logs read
  back for the live report (`live`) and user lifecycle statistics (`stats`). Public proof functions named `law_*` state properties that hold
  across calls.
- Calls into outside crates (regular expressions, JSON parsing, random
  choice, the clock, Unicode case mapping, CSV reading) go through small trusted wrappers
  whose doc comments say what is assumed of them.
- `app/` is the `rust-lt` command around the library: reading scenario files,
  HTTP traffic, sleeping and spawning, logging to files, statistics in
  floating point, and the dashboard server.
- `tests/` exercises the library on concrete values.
