# conectastore

Graph-based product recommendation for a store, written in Verus.

Customers, products and categories are held in hash maps by id; their relations
(purchase, interest, rating, similarity, category) are weighted edges of an
undirected graph kept as adjacency lists. A recommendation is a breadth-first
search from a customer or a product, limited in depth; every product vertex it
reaches (except excluded ones) is scored as

    score = (weight * type_multiplier) / max(depth, 1)

and the list is sorted by decreasing score (stably) and cut to a limit.

Weights and multipliers are held in thousandths (`1000` is 1.0), and a score is the
exact fraction `numerator / denominator`. A price is held as the 64-bit encoding of
an IEEE 754 binary64 number (`f64::to_bits`); `src/models/price.rs` checks it and
encodes whole numbers the way `as f64` rounds them.

## Layout

- `src/models` — typed ids, `Product`, `Customer`, `Category`, binary64 prices.
- `src/text.rs` — white space, blank names, parsing of decimal ids.
- `src/graph` — `Graph` (adjacency lists), `bfs`, `dfs`, the laws of the
  search (`laws.rs`): each vertex once, at its distance, nothing within the limit
  missed, a deeper search only appending; and graphs described by their vertex
  kinds and links in order (`linked.rs`), used to state built graphs exactly.
- `src/repository` — `Store`, which keeps entities and graph in step, and its laws.
- `src/recommendation` — scores, ranking (a verified stable sort), the engine, and
  the laws of the recommendation lists.
- `src/benchmark` — synthetic catalogues and timing (the clock wrappers in
  `clock.rs` are the only trusted code).
- `src/utils` — the demonstration catalogue.
- `app/main.rs` — the interactive menu and the standalone benchmark
  (`benchmark` as first argument).
- `tests/` — tests of every module.
