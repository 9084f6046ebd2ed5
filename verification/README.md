# glass_engine

Music metadata indexing and similarity search: every track is a point in a
five-dimensional emotional/structural space, and a range query filters the
catalog and ranks the rest by distance to the query's target.

- `src/` — the verified library (Verus): genres, tracks and their duration
  string, dimension values held by their binary32 bit patterns and compared
  by them, range queries and their filters, the ranking (filter, order by
  distance with ties kept in catalog order, cut to `top_k`), the catalog's
  year bounds, and the year-window slider's handle moves. Laws stand beside
  the functions they speak of as proof functions.
- `tests/` — tests of the library.
- `app/` — the WebAssembly front end (Leptos UI, JSON API, catalog loading)
  and the binary32 arithmetic: range midpoints, weighted distances and score
  normalisation, which hand the library the distances' bit patterns.
