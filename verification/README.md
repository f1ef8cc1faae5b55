# apin

A terminal navigator for OpenAPI descriptions (Swagger 2.0, OpenAPI 3.0, 3.1
and 3.2): it loads one or more specs, shows their paths as Miller columns,
lists the operations of a path and opens a detail page with parameters,
request body and responses, including foldable schema trees.

## Layout

- `src/` — the library, verified with Verus. It holds the normalised model
  (`model`), the parsers of each dialect (`swagger`, `openapi30`, `openapi31`,
  over the YAML value model in `yaml` and the typed model in `api3`, with the
  schema-tree builder in `schema`), version detection and the reading of a
  spec file's content into a `Spec` (`loader`, with YAML reading in `yaml`
  and the typed OpenAPI 3.x reading in `documents`), the path
  trie (`path_tree`), the column and list cursors (`nav`), the application
  state and its actions (`session`), key bindings (`events`), and everything
  that decides what a screen shows (`lines`, `detail_page`, `schema_view`,
  `detail`, `detail_frame`, `panels`, `styles`, `text`). Input resolution
  (which arguments are files, directories or URLs, and how a downloaded spec
  is named in the cache) is in `inputs`.
- `app/` — the program around it: command line, file and network access,
  the terminal event loop and the drawing with ratatui.
- `tests/` — tests of the library through its public interface.
