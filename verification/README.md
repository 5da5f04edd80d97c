# rust_visualizer

Ownership visualisation for Rust sources, written in Verus.

A source file is parsed with `syn`; a walk over its syntax tree records
events (definitions, uses, borrows, scopes); the events build a graph of the
variables; ownership, borrow and lifetime analyses run over the events; and
the graph is drawn as DOT, as an SVG picture, as an interactive SVG picture
and as a frame-by-frame animation.

Layout:

- `src/` — the verified library. `parser/` holds the events and the walk's
  decisions, `analysis/` the analyses and the ordering of variables by name,
  `graph/` the variable graph, the grouping by scope and the renderers,
  `report.rs` the counts the command line prints. Every renderer's output is
  specified character by character over the graph and the results.
- `tests/` — tests run against the compiled library.
- `app/` — the command line: reading and writing files, the walk over `syn`'s
  tree, the external `dot` tool and the (disabled) web service.
