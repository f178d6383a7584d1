# pingora_gateway

The routing core of a Kubernetes Gateway API gateway built on pingora,
written in Verus.

- `src/` is the verified library: the Gateway API objects as plain values
  (`model`), rule matching (`matcher`), attachment of routes to gateways
  (`gateway`), route selection per request (`route`, `proxy`), query string
  parsing (`query`), the server configuration (`config`) and the state
  machine that registers the Gateway API definitions (`crd`).  Calls into
  the `wildcard` and `regex` crates and into `str::to_uppercase` stand
  behind the trusted wrappers of `pattern`.
- `app/` is the program around it: command line, YAML configuration,
  the Kubernetes client, watchers and stores, and the pingora services.
- `tests/` runs the library on concrete objects and requests.
