# realtime-web-comparison

Servers that stream 2500 coordinates to a browser, which visualizes them: by
WebSocket, by server-sent events, and by a WebRTC data channel.

- `src/` is the library. It holds what the servers decide and compute, with
  contracts that Verus proves: the coordinates, the flow control of the data
  channel, the work on a peer connection turn by turn, what is read out of
  offers and candidates, the choice of the address to bind to, and the answers
  to HTTP requests.
- `app/` is the program: sockets, TLS, threads, time and the environment. It
  also polls the peer connections and gives them their inputs, since `str0m`
  panics on some of what a peer may send and only the program can catch that.
  Its first argument names the server to run: `websocket` (wss, port 8000),
  `sse` (port 7999), `webrtc-rs` or `str0m` (signaling on port 8002).
- `tests/` runs the library, with two peer connections in memory where it
  needs any.

The certificate and the key of the servers are read from
`../../certs/localhost.pem` and `../../certs/localhost-key.pem`; `mkcert
localhost` makes them. `BIND_UDP_IP` names the address that the `str0m` server
binds its UDP sockets to.

A few functions of outside crates are trusted to do what their declarations in
`src/` say; each such declaration names the function and what is claimed of it.
