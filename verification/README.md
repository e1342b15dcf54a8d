# creature_context

A verified core for Creature Context, a multi-scale project atlas kept current
by a resident service. The library is written in Verus: each public function
carries a `requires`/`ensures` contract over mathematical models (sequences,
sets and maps of plain values), and the laws the system promises stand as
proof functions.

## Layout

- `src/atlas.rs` — the Atlas model: scales, kinds, Green codes and axes,
  entities with their spans and evidence, sockets, edges, context records
  and snapshots.
- `src/text.rs`, `src/order.rs`, `src/digest.rs`, `src/ids.rs` — character
  sequences, lexicographic order and sorted distinct lists, BLAKE3 digests and
  their hexadecimal form, UUIDs held as 128-bit integers.
- `src/parsers/` — the construct registry, language dispatch, declaration,
  import and macro-name extraction over a syntax tree, `use`-path expansion,
  the parse cache, and the enrichment steps that turn a parse into entities,
  edges and sockets.
- `src/store/` — the IDX record form (tokens, fields, `@green` records), the
  JSONL journal's reading rules, the folder structure of the distributed
  `ATLAS.idx` files, and the rebuild scope check.
- `src/runtime/` — runtime events, the reconciliation coordinator, watcher
  filtering, metadata projection, semantic-lane work selection, platform
  capabilities, and the supervisor definitions.
- `src/model/` — capability states, the on-device bridge as a host without it
  sees it, calibration expectations, and the semantic lane's application of
  admitted proposals.
- `tests/` — executable tests of the library.
- `app/` — the I/O around it: journal files, the `notify` watcher, the
  service loop, supervisor paths, tree-sitter conversion and enrichment.
