# omni-minify

A format-aware minifier for CSS, JavaScript, HTML and GLB files, written in
Verus: the plugins, the statistics they report, the plugin registry and the
decisions of the command-line front end are verified against their contracts.

Layout:

- `src/` — the verified library.
  - `minifier.rs`: levels, errors, exit codes and the `Minifier` trait.
  - `css.rs`, `js.rs`, `html.rs`, `glb.rs`: the plugins.
  - `balance.rs`: the bracket-balance check shared by CSS and JavaScript.
  - `stats.rs`: statistics and their report.
  - `registry.rs`: plugin selection (first match wins, or by format name).
  - `cli.rs`: arguments, output paths, plugin choice and the messages shown.
  - `safety.rs`: size limit, output directory and backup bookkeeping.
  - `path.rs`, `text.rs`, `strings.rs`, `pattern.rs`: paths as text, text
    operations, conversions, and regular expressions through `regex`.
- `app/` — the program: argument parsing, logging and file I/O.
- `tests/` — tests of the library.
