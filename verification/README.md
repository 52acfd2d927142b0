# git-numeria

Change statistics of a git range by dimension (code, test code, other
files, file counts), each split into added / deleted / modified lines, with
a terminal table and a self-contained HTML report. Only Go and Python are
recognised.

The library in `src/` is verified:

- `text` — character-sequence operations (split, lines, trim, decimal
  parsing and printing) with their specifications.
- `pathmap` — a path-keyed map whose view is a `Map`.
- `classify` — path to category.
- `diff` — `-U0` unified diff parsing (hunk pairing into modified lines),
  path unquoting, range selection.
- `collect` — aggregation of git's outputs into a report; file ranking.
- `term`, `html` — the two renderers, each specified as a function of the
  report.
- `cli` — command-line parsing.
- `laws` — properties across functions: agreement with `--numstat`,
  dimension sums, uniqueness of the file ranking, blank zero cells,
  `-n N` versus `HEAD~N`, unquoting undoes git's quoting, escaped HTML text
  holds no markup, the verbose report extends the plain one.

`app/` holds the program around it: running git, reading the environment
and the terminal, pixel widths of the HTML bars (floating point), and
writing the output.
