# Interstellar Writer (Astro)

The logic of a desktop editor for Markdown/MDX content of Astro sites, as a
library verified with Verus.

- `src/` — the verified library: front-matter parsing and emission (through
  `serde_yaml`), front-matter normalization and mandatory fields, relative asset
  paths, the editor's text operations (formatting, imports, notices, images,
  toolbar commands), preview and highlighting, project settings, file naming and
  listing, the dashboard's decisions and the Git synchronisation state machine.
- `tests/` — tests of the library on concrete values.
- `app/` — the window (egui/eframe), disk access, settings storage and the Git
  calls, which hand plain values to the library and act on what it returns.
