# pcbfapi

The back end of PCB Forge, a documentation toolchain for KiCad projects: it
exports schematics and boards to SVG with `kicad-cli`, cleans the SVGs up,
fills Typst page templates with project data and compiles them to PDF, and
keeps a small library of electronic parts.

## Layout

- `src/` — the verified library (Verus). Each module states its behaviour in
  `requires`/`ensures` contracts over mathematical models:
  - `text` — character-level helpers (search, trimming, decimal text);
  - `typst` — Typst string escaping, JSON values and their Typst literals, the
    page and runner scripts;
  - `svg` — attribute and number extraction, background-rectangle removal,
    geometry tags and the `viewBox` rewrite;
  - `fields` — the data model and an ordered field map;
  - `paths` — relative paths, page-path resolution, template names from
    `$schema` URIs, and the search order of layout files;
  - `templates` — variant ordering, the starter template and the generated
    schema and project documents;
  - `assets` — how a page source is resolved (cache names, export command lines);
  - `kicad` — where `kicad-cli` is looked for;
  - `markdown` — image references of Markdown pages and their rewriting;
  - `icon` — the tray icon's transparency;
  - `status` — tray texts, API responses, part texts and bill-of-materials rows;
  - `project` — folder layout and file names of generated output;
  - `merge` — the page list, page count and re-parented pages of a merged PDF.
- `app/` — the program around the library: the HTTP server, file system and
  process work, the Typst compiler world, PDF merging, the tray and the parts
  store.
- `tests/` — tests of the library on concrete values.
