# strict_du

Totals up the real on-disk usage of a directory tree (allocated blocks, not
apparent lengths), charging hard-linked files once, optionally staying on
one file system, and failing on the first I/O error unless asked to be
lenient.

- `src/` is the verified library. The walk is a machine (`walk.rs`): it is
  started by `scan` or `scan_top_level`, hands out requests (read this
  metadata, open this directory, give the next entry) and takes back what
  happened, deciding everything in between. `laws.rs` proves what holds of
  every walk; `human.rs` formats byte counts the way `du -h` does, with the
  one-decimal rounding of `format!("{:.1}")` on the count as an `f64`.
- `app/` performs the file-system calls the walk asks for and offers the
  familiar `scan(&Path, &ScanOptions)` and `scan_top_level` entry points.
- `tests/` drives the walk over file systems held in memory.
