# zfs-io

A terminal view of live OpenZFS telemetry that leaves the pools alone: it only
reads the kernel statistics under `/proc/spl/kstat/zfs`.

The library in `src/` holds the logic and is verified with Verus:

- `text`, `kstat`: the statistics files, as lines, words, numbers and counters
- `pools`, `arrangement`, `totals`: from counters to the rates of the pools, in
  order of their names, and their sums
- `quantity`: shares, fractions and rates, kept exactly, and how byte rates are written
- `ring`, `series`: histories of fixed length
- `config`, `collector`, `mock`: what is sampled or made up, how often, and what
  is reported
- `model`: the telemetry that is shown
- `app_state`, `drawing`: keys, screens and what stands on them
- `clock`: readings of a monotonic clock

The program in `app/` does what touches the system: arguments, files, timers,
the keyboard and the terminal. It rounds exact quantities to floating point
where they are drawn.

Functions whose names start with `law_` state properties of the library as a
whole.
