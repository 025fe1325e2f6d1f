# toukan_robot_core

The core of 投刊机器人, a desktop assistant that recommends journals for a
manuscript, keeps a local journal catalogue and submission records, and
enriches the catalogue from Crossref and the journals' official sites.

- `src/` is the library, written in Verus: every decision the assistant takes
  (input checks, search terms, subject guards, candidate filtering, index
  chunks and health, enrichment plans that never overwrite, site crawling
  order, web-result parsing, SQL text, file names, reports) is stated in
  `requires`/`ensures` and proved. Calls into `regex`, `sha2`, `reqwest::Url`
  and a few `std` character functions stand behind small trusted wrappers
  whose contracts name their results.
- `tests/` exercises the library on concrete values.
- `app/` is the desktop-side layer: the SQLite database, the file system, the
  network, the embedding and chat services, and the floating-point scoring.
  It only reads, writes and sends what the library decides.
