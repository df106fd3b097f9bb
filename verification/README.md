# I Seek You, verified

The signaling, STUN and TURN servers of a WebRTC application. The
library in `src/` holds the server's logic, proved with Verus; `app/`
runs the servers on top of it.

- `peer_id`: peer ids, their four-digit wire form, and the shuffled pool.
- `types`: peers, responses, client messages, deliveries.
- `message`: reading a client's message from a frame's JSON text.
- `peer`: the registry (free ids and signed-in peers) and its operations.
- `lobby`: telling the peers of one address who else is there.
- `signaling`, `lobby_signaling`, `standalone`: the three protocols'
  handling of a frame's text and of each message.
- `configs`, `auth`: the TURN server's settings and credentials.

`app/main.rs` takes the server to run as its first argument.
