# influx_query

A library and command for querying InfluxDB v1 (InfluxQL) and v2 (Flux)
over HTTP, with its logic verified.

- `src/` is the library. It builds the HTTP request for a query (form body
  for v1, JSON body for v2, token or basic authentication), reports requests
  and responses for `--debug` with credentials redacted, and prints the rows
  of an answer as a padded table, CSV or JSON. Each function states what it
  returns in its contract; the encodings it calls into (`url`, `base64`,
  `serde_json`, `csv`) stand behind small trusted functions whose contracts
  say what those crates produce: the encoded text, the CSV text, the pretty
  JSON text, and the fields that the CSV reader hands back as a named result.
- `src/decode.rs` states how a form body, a query string and a one-field
  JSON object are read, and proves that the requests read back as exactly
  the values they were built from.
- `app/` is the `influx-query` command: argument parsing (clap), the HTTP
  exchange (reqwest), and decoding a v1 JSON answer (serde).
- `tests/` runs the library on concrete queries and answers.
