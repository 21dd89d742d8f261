# pong_core

Verified core rules of Pong, a durable state store for provider-neutral
Agent runtimes: content-addressed objects, canonical JSON, redaction of
configured secrets, repository markers and migrations, the external Agent
protocol, the remote access boundary and the HTTP transport.

Everything under `src/` is verified. Each module states what it
decides as `requires`/`ensures` contracts over mathematical models
(`Seq`, `Set`, `Multiset`, spec functions), and proof functions state the
laws that span several calls (member order does not change a canonical
encoding, digest messages are unambiguous, hex round-trips, rate windows
stay within their bounds, redacted members never collide, what the store
accepts reads back, ended Executions stay ended, a recorded publication
state reads back unchanged).

The filesystem, SQLite, sockets, threads and clocks are the host's: the
library takes what they read as plain values and returns what they should
do. `app/` holds an HTTP client built that way.

Layout:

- `src/canonical.rs`, `src/json.rs`: JSON values and their canonical text.
- `src/cas.rs`: digests, hex, and the content-addressed store over what its
  directory holds: publication and reads under the one-shot fault plan,
  quarantine, and the start-up scan.
- `src/redaction.rs`: secret registration, text and value redaction.
- `src/environment.rs`: environment capture and its stored identity.
- `src/repository.rs`: layout, marker, selector, manifest and migration journal rules;
  the steps of opening a repository and of migrating one, each a function from
  state and the host's observation to the next state and the host's next action.
- `src/records.rs`, `src/control.rs`: durable rows and Version publication.
- `src/protocol.rs`: protocol envelopes, failures, resources, request rules and
  the dispatch decision of each authenticated call.
- `src/remote.rs`: sessions and Principal-to-Agent authorization.
- `src/http_transport.rs`: configuration, credentials, the screening of a request
  and the admission of its body in the transport's order, rate limits, metrics.
- `src/remote_client.rs`: HTTP client framing and reply reading.
- `src/replace.rs`: path checks, retry and error rules of atomic file replacement.
- `src/error.rs`, `src/text.rs`, `src/path.rs`: errors and text helpers.
