# nwnarmory

A command-line tool that rescales ASCII Neverwinter Nights `.mdl` models into
variants for other playable races, following the rules of a `transforms.ini`
file, and that can fit such rules from two corresponding models
(`--values`).

The logic is a library verified with Verus; the program around it does the
file system work, the floating-point geometry and the printing.

## Layout

- `src/` — the verified library:
  - `text.rs`: Unicode white space, trimming, `lines`/`split_whitespace`,
    decimal numbers, conversions.
  - `names.rs`: wildcard matching of model names (`match=`) and building
    target names (`substitute=`), with their laws.
  - `derive.rs`: the `match=` and `substitute=` lines that `--values`
    derives from the source and target model names.
  - `replace.rs`: case-insensitive replacement of the model name in a line.
  - `ini.rs`: the INI format of rule files and its error texts.
  - `rules.rs`: loading the `[Global]` count and the `[sN]` rule sections;
    numbers stay text, checked by a classifier the caller supplies.
  - `model.rs`, `rewrite.rs`: the `bitmap` and `materialname` options, error
    texts, block counts, temporary file names, and the line-by-line decisions
    of rewriting a model (`ModelRewriter`), counted `weights`/`constraints`
    blocks included.
  - `geometry.rs`: reading `verts`/`tverts`/`position` for fitting.
  - `cli.rs`: the command line. `batch.rs`: target names and counts of a run.
- `tests/` — tests of the library.
- `app/` — the program: file I/O, `f32`/`f64` transforms and fitting.
