# kawaii_launcher

A game launcher's core, verified with Verus.

- `src/` is the verified library: the data model of the version manifest,
  version files and asset indexes (`model`, with `strmap` for JSON objects),
  where every file lives and where it is fetched from (`paths`), which
  downloads a version needs (`plan`), the version lookup and the sorted list
  of version types (`manifest`, `order`), and the command line that starts
  the game (`launch`).
- `app/` holds the network, disk and process work: fetching JSON with
  `reqwest`, decoding it with `serde`, writing files with `tokio`, and
  starting `java`.
- `tests/` runs the library on concrete values.
