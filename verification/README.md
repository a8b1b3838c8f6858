# flash

The page-building core of Flash, a documentation generator for C++ projects,
written in Verus. Each formatter states, as its contract, the exact HTML tree
it builds from a declaration, and Verus proves it.

- `src/html.rs`: an HTML tree (elements, text, lists) and its builders, each
  with the tree it yields as a mathematical view.
- `src/model.rs`: what the formatters read of a parsed C++ code base, as
  plain values.
- `src/types.rs`, `src/format.rs`: how types, parameters, functions, fields,
  classes, base and derived classes, sections and header links are shown.
- `src/output.rs`: the named fragments of an entity's, function's or class's
  page; the class lists of a namespace tree.
- `src/order.rs`: ordering by name and a stable sort, with its laws.
- `src/annotation.rs`, `src/autolink.rs`: linking the names of documented
  entities in prose.
- `src/emoji.rs`: replacing `:shortcode:` by the emoji it names.
- `src/logging.rs`: the coloured log line of the command-line tool.
- `app/`: the command-line front end (arguments, logging, output directory)
  and the reading of libclang declarations into the model.
