# tupi_voice

The voice side of the Tupi server: who is in which voice channel, what they
share, and what every client is told of it. LiveKit carries the media and is
the authority on who is connected; this library keeps a versioned projection of
that and turns messages, webhooks and snapshots into changes of it.

- `src/voice` holds the registry: its model, its operations, the deltas that
  clients apply, and the laws that hold across operations.
- `src/livekit` reads webhooks and room listings, and decides on access tokens.
- `src/ws` decides what each message of the signaling protocol does.
- `src/protocol.rs` holds the messages; `src/clock.rs`, `src/ident.rs`,
  `src/listing.rs` and `src/text.rs` hold what the rest is built on.
- `app` is the server around the library: sockets, routes, storage and JSON.

An operation that changes a room counts one version up. A published track that
brings its owner into the room counts two. A version never goes back while the
process runs, even when a room closes and opens again. The operations that
count ask for room to count on the channels that they may change: `can_count`,
`can_move`, `can_publish` and `can_reconcile` tell whether there is.
