# wat

`wat` is a small, config-driven file watcher: it reads a TOML watchfile
(`watfile` or `watfile.toml`), runs the selected targets' shell commands, and
reruns (or restarts, for `interrupt` targets) a target when a file it watches
changes.

Layout:

- `src/` — the library, verified with Verus: command-line interpretation
  (`cli`), the watchfile model and its validation (`config`), target
  selection and the run plan (`plan`), command chaining (`runner`), pattern
  expansion (`patterns`), glob sets, event matching, trigger decisions and
  watch roots (`watch`), and the properties of the whole (`laws`). The
  `globs` and `paths` modules hold the trusted boundary to `globset` and
  `std::path`.
- `app/` — the program around the library: argument reading, file and
  process I/O, TOML decoding and the `notify` watch loop.
- `tests/` — tests of the library on concrete values.
