# BenchHub

BenchHub installs, configures and runs Linux benchmarks (7-Zip, FFmpeg,
Geekbench, y-cruncher, Unigine and others), records telemetry while they run,
keeps a history of runs with methodology groups, and exports comparisons.

The library in `src/` holds the rules of the program, each function with a
contract proved by Verus:

- `text`, `utils` — string specifications and the input, path and identifier
  rules.
- `bench_config`, `settings_dialog` — per-benchmark settings, their argument
  lists and the settings dialog.
- `config`, `settings_choices` — application settings, their sanitising and the
  menus that change them.
- `models`, `catalog` — benchmark profiles, GPU modes, sort orders and the
  benchmark catalog with its install queue.
- `engine`, `discovery`, `runs` — runner directories, install plans, executable
  discovery, launching a run and watching it to its end.
- `logging`, `state` — the terminal ring buffer, the console flusher, log views
  and tails.
- `telemetry`, `commands` — sensor discovery, the sensor diagnosis, GPU and
  processor names, clock files, throttling verdicts and byte-size units.
- `history`, `history_filter`, `schema`, `methodology`, `run_display`,
  `dates`, `export`, `comparison` — the history queries, filters and rows, the
  database migrations, methodology summaries, the texts shown for a run, run
  dates, the history CSV and the comparison image (SVG) with their escaping and
  layout.
- `i18n`, `eula` — the Turkish and English dictionaries and the licence texts.

Calls into outside crates (`regex`, `toml`, `chrono`) go through a few trusted
wrappers whose contracts name what the crate computes.

`app/` is the program around the library: file and directory access, running a
benchmark process (its events decided by the library's run monitor), the SQLite
history database (with the library's migrations and queries), settings files
and the measurements in floating point. `tests/`
exercises the library.
