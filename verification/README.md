# khudib

A small request-tracking system for gRPC services, with its logic verified by Verus.

- `src/` is the verified library: the khudib service's request log
  (`khudib`), the server-side proxy's log and the client-side proxy's request
  (`sidecar`), command lines (`cli`), breakwater requests (`breakwater`),
  request identifiers (`ids`), clock stamps (`clock`), the client's record of
  its requests (`monitor`, `client`), the steps of a hotel search (`search`),
  the TCP proxy's rewriting of what it forwards (`rewrite`), and `dec2bin`
  (`binary`).
- `app/` holds the programs around it: the gRPC servers and clients, the TCP
  proxy with its socket option, and the search service's network calls.
- `tests/` runs the library on concrete values.
