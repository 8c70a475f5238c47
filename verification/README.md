# end_model

Catalog and data tooling for a factory planner, written in Verus.

- `src/` is the verified library:
  - `catalog` — items, facilities and recipes, their opaque ids, and the builder
    that keeps the key indices and the single thermal bank consistent;
  - `item_map` — a sparse per-item table over `vector_map::VecMap`;
  - `load` — assembling a catalog from parsed TOML records, with range checks and
    key resolution;
  - `convert` — turning legacy recipe records into item, facility and recipe
    tables (display names, thermal-bank power recipes, sorting);
  - `report` — report errors, output language and ANSI styling;
  - `text`, `order` — string and ordering helpers with their specifications.
- `app/` holds the unverified edges: file reading, TOML parsing, Lua evaluation,
  command-line and terminal settings.
- `tests/` exercises the library on concrete values.
