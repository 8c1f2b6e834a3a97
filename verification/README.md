# hyper_tide

Request routing for a small HTTP framework on hyper, with its routing logic
verified by Verus.

- `src/` is the verified library: HTTP methods (`method`), route paths
  (`path`), the path recognizer of `route_recognizer` behind trusted wrappers
  (`recognizer`), the routing table and its choice of endpoint (`router`), the
  route builder and prefix stripping of nested services (`route`), servers
  (`server`) and the middleware chain (`middleware`). Endpoints and
  middleware are named there by ids.
- `app/` holds the HTTP side: the async `Endpoint` and `Middleware` traits,
  the hyper server loop, and a route builder that keeps the endpoint and
  middleware objects by the ids it registers in the verified table.
- `tests/` runs the library on concrete values.
