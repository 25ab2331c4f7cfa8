# wasmCloud Couchbase plugins

Verified logic of three ways to serve the `wasmcloud:couchbase` interface, of a
gRPC front door, and of the scenario that drives the interface end to end.

- `src/data_api`: Couchbase over the HTTP Data API. Requests are built, replies
  are classified, mutation tokens are taken apart or carried along whole.
- `src/sockets`: Couchbase over its KV binary protocol: frames, the handshake,
  routing to a vbucket, projection, and SQL++ over HTTP.
- `src/kv_sdk`: Couchbase through the SDK: connection strings, options, and what
  the SDK's errors mean.
- `src/grpc.rs`, `src/gateway.rs`: unary gRPC calls over HTTP.
- `src/scenario`: a run of the scenario as a machine that asks for one operation
  at a time.
- The other modules hold what these share: text, numbers, the calendar, JSON,
  credentials, configuration, HTTP records and the interface's own types.

Everything in `src/` is verified with Verus. Each function's contract is stated
over views: text is a sequence of characters, JSON is a tree whose objects are
maps, a table of workloads is a map. Laws that relate several functions are
public proof functions whose names begin with `lemma_`.

What is not proved is marked `external_body` or `assume_specification`, with a
comment that says what is relied on: parsing and writing JSON, base64, the civil
fields of an instant, and a few functions of the standard library.

`app/` holds the components around the library: the traits for what a host
offers, and the loops that carry out what the library decides.
