# event_grid

Azure Event Grid transport, verified with Verus: a topic key over the REST
API — publish a Stream as one CloudEvent to a topic, receive as the webhook a
subscription delivers to, answering the validation handshake — and a session
that stands as the topic on loopback.

- `src/` makes and reads everything that goes over a socket, and decides what
  each answer comes to. Every function states what it returns; the `law_`
  functions state what holds across them.
- `app/` owns the sockets, the clock and the one `Ids` of the process behind a
  lock, and puts the transport behind the traits of the transport contract.
- `tests/` runs both ends against each other with no wire between them.

JSON is read and written by `serde_json`; what is trusted of it stands in
`src/json.rs`, each item with the claim it makes.
