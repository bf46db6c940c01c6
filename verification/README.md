# Watch Bells

A tray application that strikes a ship's bells on the hour and half-hour,
and the packaging tool that builds and publishes its releases. The rules of
both are a library verified with Verus; the program around them reads the
clock, the environment and the file system, plays the sounds and draws the
tray icon.

## Layout

- `src/` — the verified library.
  - `clock.rs`: instants, wall-clock readings, zoned date-times and how a
    time zone resolves a wall-clock reading.
  - `bells.rs`: the watches of the day, the bells struck in each, the
    tooltip text and the chimes that sound a bell count.
  - `schedule.rs`: when a half-hour boundary is fresh, which boundary comes
    next on a wall clock that skips or repeats times, and the decisions of
    the scheduler and the event loop that strike each boundary at most once.
  - `logging.rs`: log levels and thresholds, the log line format, the log
    directory of each platform and when the log file is rotated.
  - `release.rs`: the release version grammar, the exact release file set,
    the macOS architecture checks, the command line of the packaging tool,
    the bundle metadata and the icon container format.
  - `text.rs`: white space, words, joining, and sorted sets of names.
- `tests/` — tests of the library on concrete values.
- `app/` — the program: tray icon, scheduler thread, audio, logger, and the
  packaging tool's file and process work.
