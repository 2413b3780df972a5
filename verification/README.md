# lx

A verified library for `lx`, a simple, opinionated replacement for `ls`: directories
first, then files, each group sorted by name, with sizes, dates, times, optional
permission strings and colors.

- `src/` is the library, verified with Verus:
  - `config` — colors and settings, and how a TOML configuration file sets them;
  - `toml_doc` — the part of a parsed TOML document that the configuration reads;
  - `cli` — the command line, how it overrides the configuration, and what to list;
  - `pattern` — glob paths and which directory entries are listed;
  - `entry`, `order` — listing entries and their order (a stable sort);
  - `size`, `mode` — size, permission and timestamp columns;
  - `render` — colored listing lines;
  - `text` — string helpers.
- `app/main.rs` is the program: argument parsing, the file system and printing.
- `tests/` runs the library on concrete values.
