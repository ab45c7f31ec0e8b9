# mc_wake_proxy

A proxy in front of a Minecraft server that is put to sleep while nobody plays.

- Server list pings are answered by the proxy itself while nobody plays, so that
  they do not keep the server up.
- A player who joins wakes the server. The player is held until it serves, where
  that is set, and is otherwise asked to come back in a moment.
- While someone plays, everything is relayed, and the server is kept up.

`src/` is the library, verified with Verus: the wire format (`varint`, `packet`,
`handshake`), the texts (`text`, `json`, `status`, `error`), the settings, and the
decisions (`proxy`, `probe`, `wake`, `connection`). `course` states what holds along
one connection, `system` what holds of all of them together. Exactly one item is
taken on trust: the contract of `String::push`, in `text`.

`app/` is the program: sockets, timers and tasks. It reads its settings from the
environment or from a `.env` file: `BACKEND_ADDR`, `PORT`, `LOGIN_HOLD_SECS`,
`VERSION`, `MOTD`.
