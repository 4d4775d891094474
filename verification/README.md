# nodetunnel

A relay for Godot multiplayer games: clients connect over WebRTC (or UDP) and
authenticate with an application token. The relay recognises requests to host,
list, join and update rooms and game data for a room, and hands them back as
requests; nothing in this crate carries them out yet, so rooms cannot be hosted
through it. There is no UDP transport, and the Godot side of the client (its
peer connection, HTTP client and multiplayer peer class) is not here: the
library holds the client's decisions and state only.

- `src/` is the library, verified with Verus: the packet format (`codec`), the
  relay's state and decisions (`server`), and the game peer's and signaling
  state on the client side (`client`). Each decision is a function from state
  and event to new state and work for the transports; `server::laws` and
  `client::laws` hold the properties proved across operations.
- `app/` is the relay program: settings, logging, the HTTP signaling endpoint,
  the WebRTC data channels, and the loop that feeds transport events to the
  library and carries out the work it returns.
- `tests/` runs the library on concrete cases.
