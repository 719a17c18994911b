# themacfiles

Decodes the telemetry that macOS `analyticsd` keeps in `config.sqlite` and
`state.sqlite`, and reports it in plain language: every record labeled and
categorized, a summary of what was collected (apps, ML models, predictions,
device facts, counters, data sinks), per-app profiles, and the event catalog.

## Layout

- `src/` — the library, verified with Verus. It holds the logic: event
  categorization, the join of transform definitions with state rows, field
  extraction, insight gathering, app profiling and merging, filtering, and
  every text report. Contracts state each result over spec functions; the
  laws (e.g. that app profiles count every record once and have distinct
  bundle IDs, that merging related profiles loses no record, that category
  counts add up to the record count) are public proof functions.
- `app/` — the command-line program around it: argument parsing, SQLite
  access, temporary copies of the databases, JSON output through serde, and
  the few report details that compute with floating point.
- `tests/` — tests of the library on concrete values.

Tables are drawn by `tabled`; the library names their text by the rows it
hands over, and proves the rows exactly.
