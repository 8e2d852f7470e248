# forgelag

A deterministic, latency-first replay core for cross-venue basis / lag
research on crypto microstructure, written in Verus. Every decision the
replay makes over integers (the virtual clock, the outbound-latency order
queue, the queue-position maker fill model, the maker quote lifecycle, the
managed execution shell, feed normalisation, purged cross-validation folds,
bar-series bookkeeping) is specified with `requires` / `ensures` and proved.

## Layout

- `src/` — the verified library.
  - `engine.rs` — `LagCore`: clock, in-flight queue, latency sampler,
    resting maker quotes with their client ids, cancels landing after the
    cancel latency, the fill model and the run counters, with the
    fill-model and cancellation laws.
  - `feed.rs` — event normalisation, the merged-stream order and the window
    file plan.
  - `maker.rs` — oracle clocks, rolling window, position limits, the entry
    quote lifecycle and the maker state machine, configuration checks.
  - `strategy.rs` — the managed execution shell and the seeded coin flip.
  - `cv.rs` — purged K-fold cross-validation ranges.
  - `sweep.rs`, `calendar.rs` — bar-series bookkeeping: date segmentation,
    barrier tallies, losing streaks, family names, calendar dates.
  - `text.rs`, `side.rs` — decimal rendering and the book side.
- `tests/` — executable tests of the library.
- `app/` — the command-line programs (feed check, bar-series sweep,
  volume-profile and gap-close studies): Parquet and CSV I/O, the order book
  and account of the execution venue, and every floating-point measure
  (basis points, fair value, P&L statistics).
