# tts-bridge

A WebSocket front for text-to-speech backends that speak `POST /v1/audio/speech`. A client
sends texts over one connection and gets PCM16 audio in frames of fixed size; parameters stay
in force from one utterance to the next, and an utterance can be cancelled while it streams.

The decisions are a library verified with [Verus](https://github.com/verus-lang/verus):

- `src/config.rs` reads the settings from the environment's variables
- `src/message.rs` reads client messages
- `src/session.rs` holds the parameters in force and makes the backend's requests
- `src/audio.rs` cuts the backend's bytes into frames
- `src/frame.rs` writes what the client gets
- `src/proxy.rs` is the connection: which actions follow from which event
- `src/health.rs` is the health check
- `src/laws.rs` states and proves what holds of a connection as a whole
- `src/json.rs` and `src/text.rs` hold what the others share; `json.rs` is the border to
  `serde_json`

`app/` is the program: sockets, HTTP, logging and shutdown. It hands events to the library and
performs the actions that come back.
