# state_proxy

The verified core of a load balancing proxy.

- `src/backend.rs`: the service manager. Endpoint discovery tasks send `EndpointEvent`s; the
  manager keeps one service per external port, says which ports to open and close, and picks an
  available endpoint for each new connection. `src/backend/laws.rs` states what holds across
  events (adding then deleting, suspending then resuming, deleting unknown endpoints).
- `src/kubernetes.rs`: discovery through Kubernetes pods: reading the services annotation, port
  numbers, and turning pod events into endpoint events. `src/kubernetes/laws.rs` holds its laws.
- `src/protocol.rs`, `src/protocol/proxy/endpoint.rs`, `src/http.rs`: protocol registry and
  capabilities, the endpoint protocol's messages and negotiation.
- `src/matchmaking.rs`, `src/state.rs`, `src/cli.rs`: matching port events to servers, connection
  identifiers, command-line checks.
- `app/`: the program around the library: command line, logging, the tokio runtime, the
  Kubernetes watch, channels between tasks, and serialization of messages.
