# pullpiri

Verified core of the Pullpiri vehicle service orchestrator, written in Verus.

- `src/` is the library. Its functions carry `requires`/`ensures` contracts
  that Verus proves: endpoint addresses of the services, the node
  configuration and host address selection, SHA-256 and HMAC-SHA256 with the
  signature check of artifact payloads, the splitting of payloads into
  documents, the fields each artifact kind requires, the reading of
  payloads for apply and withdraw and the building of pods, the bounded log
  queue and drain state machine of the logger, and the podman workload
  dispatch.
- Calls into outside crates (Base64 decoding, reading and writing YAML,
  the host name and the interface listing, local time formatting) sit behind
  small trusted wrappers marked `#[verifier::external_body]`; their doc
  comments say what is assumed of them, and a few of them (the interface
  listing, the conversions between `serde_yaml::Value` and the library's
  YAML tree) promise nothing beyond their types.
- `app/` is ordinary Rust around the library: the key-value store, sockets,
  gRPC and HTTP clients, the environment, and the async loops that drive the
  library's state machines.
- `tests/` exercises the library on concrete values.
