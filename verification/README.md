# librsvg (verified core)

The parts of an SVG rendering library that decide rather than draw, written in Verus
and proved against their contracts:

- `path_lexer`, `path_parser`: SVG path data, token by token, into drawing commands.
- `css`, `length`, `property_defs`, `filter_func`, `filter`: CSS values (numbers,
  lengths, keywords, number lists, the `filter` property and its functions) read with
  `cssparser`'s tokenizer.
- `document`: the element tree, element ids, references between documents and the
  acquisition of referenced nodes with cycle and limit checks.
- `gradient`, `paint_server`: gradient attributes, resolution along `href` chains,
  stops, and what a paint reference resolves to.
- `filters`: the attributes of each filter primitive, the inputs and results of a filter
  chain, and the surface normals of the lighting filters.
- `accept_language`, `cond`: conditional processing (`systemLanguage`,
  `requiredFeatures`, `requiredExtensions`) with `language-tags`.
- `io`, `url_resolver`, `iri`: `data:` URLs with `data-url`, URLs with `url`.
- `drawing_ctx`: what a clip path or a `<use>` element draws, and PDF link attributes.
- `cli`: the decisions of the command-line converter after its arguments are matched.

Calls into outside crates go through small trusted wrappers whose contracts are stated
in their doc comments. `app/` holds the floating-point side: evaluating numbers, lengths
and transfer functions.

`tests/` holds the tests, which run against the real outside crates.
