# tower_lsp

Language Server Protocol plumbing, verified with Verus.

- `src/` is the verified library: message framing (`codec`), the JSON-RPC
  types, router table and pending-request tables (`jsonrpc`), the server
  lifecycle (`service`), the transport's decisions (`transport`, `stdio`),
  the client's decisions (`client`, `delegate`) and the routing table of the
  server trait (`routes`). Calls into `bytes`, `httparse`, `memchr`,
  `serde_json`, `dashmap` and `futures` stand behind small trusted items whose
  contracts say what those crates do.
- `app/` is the asynchronous runtime around it: framing over Tokio streams,
  the serde forms of the messages, the request tables shared between tasks,
  the router as a `tower` service and the server loops.
- `tests/` runs the library on concrete inputs.
