# snakedown

Indexes the documentation of a Python package and checks its cross references
(`[[name]]` or `[[name|text]]` in docstrings) before the pages are rendered for a static
site generator.

- `src/indexing/content.rs`: the docstring parser, text and reference nodes.
- `src/indexing/raw.rs`: the index of modules, classes and functions by fully qualified
  name, notebooks, and the URLs of external objects read from inventories.
- `src/indexing/validated.rs`: reference checking, with suggestions for unknown names.
- `src/indexing/serializable.rs`: the rendered pages and notebooks.
- `src/parsing/python/`: documentation extracted from the Python syntax tree.
- `app/`: reading files, notebooks and inventories, and writing the output.
