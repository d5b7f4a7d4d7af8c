# ottrin

The core of the Ottrin file manager as a verified library: per-tab navigation
history, the drop-target list, the copy/move transfer queue, semantic file
classification, the search query language, the search index's rules and query
pipeline, content search, the privileged helper's protocol, file-operation
decisions and preview planning. Every function in `src/` carries a contract;
Verus proves it of every function whose body it checks. The small wrappers
around `std`, `regex` and `globset` (marked `external_body`) are the exception:
their contracts restate what those libraries document and are trusted, not
proved. Laws that relate several functions are stated as public proof
functions (`law_*`).

Layout:

- `src/` — the library, verified with Verus.
  - `text`, `paths` — string and path primitives; `std::path::Path` is reached
    through small trusted wrappers whose results are named.
  - `model` — the shared data types.
  - `navigation`, `target`, `tabs` — tabs and their history, drop targets, the tab list.
  - `transfer` — the transfer queue.
  - `semantic` — file classification.
  - `query`, `matchers` — the query language; regular expressions (`regex`) and
    glob sets (`globset`).
  - `ranking`, `sorting`, `pipeline` — scoring, ordering and answering a search.
  - `indexer`, `index_state`, `content`, `locate`, `store` — the index's rules,
    its state machine, content search, the locate database and the on-disk store.
  - `platform`, `preview` — file-operation and helper decisions, previews.
- `tests/` — tests run against the compiled library.
- `app/` — the program around the library: the privileged helper's `main`, the
  filesystem, processes, threads, SQLite, serialization, and the parts that use
  floating point.
