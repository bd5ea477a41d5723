# stats

A terminal dashboard of system health and AI coding usage (Amp, Codex and other
providers' quotas, token activity calendars, world clocks), whose decision logic is a
library verified with Verus.

## Layout

- `src/` — the verified library:
  - `config`, `cli`: the configuration model, its validation, which providers the
    visible sections need, and argument/environment/file precedence.
  - `limiter`, `sync`: the rolling hourly budget for `amp usage` lookups, rate-limit
    pauses, and which history days a sync pass still looks up.
  - `report`, `amp`: reading `amp usage` output (subscription line, daily detail
    tables) and keeping one bucket per day in date order.
  - `dates`, `calendar`, `activity`, `grid`: day numbers, the activity calendar that
    fills the panel width, intensity quartiles, month labels, overview and daily
    columns.
  - `session`: the Codex app-server client as steps from state and reply text to
    the next state and actions (when to read rate limits and usage, which reply
    answers which request, when the next read falls due), and the one-shot status
    read.
  - `plan_limits`: reading the five-hour, seven-day and per-model plan limits from
    the `/usage` report of Anthropic's coding CLI.
  - `layout`, `tui`, `labels`, `probe`, `model`, `text`: column layout, scrolling,
    the world-clock cards,
    compact labels, the Amp lines of the one-shot report, `lsof`/`route` output
    parsing, provider readiness, and string helpers.
- `app/` — the program around it: threads, processes, files, the terminal UI, and
  the floating-point formatting of percentages and token counts. The dashboard does
  not run Anthropic's CLI or show its quota rows: only the report reader above
  exists, so those meters are missing from the dashboard.
- `tests/` — tests of the library on concrete values.
